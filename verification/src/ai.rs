//! Generating a commit message with an AI backend: what is sent (the diff,
//! truncated; the system prompt; to which endpoint or command) and how what
//! comes back becomes a message or an error. Sending and running are left to
//! the caller.
use vstd::prelude::*;

use crate::config::{AiBackend, AiConfig};
use crate::ops::views;
use crate::text::{
    chars_of, decimal, push_char, push_decimal, replace_all, replace_str, strip_suffixes,
    strip_suffixes_len, string_from_range, trim, trim_str,
};
use vstd::utf8::{encode_scalar, encode_utf8};

verus! {

/// Why no commit message could be generated.
#[derive(Debug)]
pub enum AiError {
    /// The `[ai].command` list is empty.
    EmptyCommand,
    /// The command could not be started.
    SpawnFailed { program: String, detail: String },
    /// The diff could not be written to the command's input.
    WriteFailed { program: String, detail: String },
    /// Waiting for the command failed.
    WaitFailed { program: String, detail: String },
    /// The command exited unsuccessfully (`status` as the system reports it).
    Exited { program: String, status: String, stderr: String },
    /// The command printed nothing.
    NoOutput { program: String },
    /// The variable that should hold the API key is unset.
    MissingApiKey { env: String },
    /// The API answered with a non-success status.
    ApiStatus { code: u16, detail: String },
    /// The request could not be sent.
    RequestFailed { detail: String },
    /// The response is not JSON.
    InvalidJson { detail: String },
    /// The response holds no message.
    NoMessage,
    /// The model answered with an empty message.
    EmptyMessage,
}

impl AiError {
    /// The text of the error.
    pub open spec fn text(&self) -> Seq<char> {
        match self {
            AiError::EmptyCommand => "[ai].command is empty"@,
            AiError::SpawnFailed { program, detail } => "failed to run "@ + program@ + ": "@
                + detail@,
            AiError::WriteFailed { program, detail } => "failed to write diff to "@ + program@
                + ": "@ + detail@,
            AiError::WaitFailed { program, detail } => "failed to wait for "@ + program@ + ": "@
                + detail@,
            AiError::Exited { program, status, stderr } => program@ + " exited with "@ + status@
                + ": "@ + stderr@,
            AiError::NoOutput { program } => program@ + " produced no output"@,
            AiError::MissingApiKey { env } => "environment variable "@ + env@ + " is not set"@,
            AiError::ApiStatus { code, detail } => "API returned status "@ + decimal(*code as nat)
                + ": "@ + detail@,
            AiError::RequestFailed { detail } => "request failed: "@ + detail@,
            AiError::InvalidJson { detail } => "could not parse response as JSON: "@ + detail@,
            AiError::NoMessage => "response did not contain a message"@,
            AiError::EmptyMessage => "model returned an empty message"@,
        }
    }

    pub fn message(&self) -> (s: String)
        ensures
            s@ == self.text(),
    {
        match self {
            AiError::EmptyCommand => "[ai].command is empty".to_owned(),
            AiError::SpawnFailed { program, detail } => {
                let mut s = "failed to run ".to_owned();
                s.append(program.as_str());
                s.append(": ");
                s.append(detail.as_str());
                s
            },
            AiError::WriteFailed { program, detail } => {
                let mut s = "failed to write diff to ".to_owned();
                s.append(program.as_str());
                s.append(": ");
                s.append(detail.as_str());
                s
            },
            AiError::WaitFailed { program, detail } => {
                let mut s = "failed to wait for ".to_owned();
                s.append(program.as_str());
                s.append(": ");
                s.append(detail.as_str());
                s
            },
            AiError::Exited { program, status, stderr } => {
                let mut s = program.clone();
                s.append(" exited with ");
                s.append(status.as_str());
                s.append(": ");
                s.append(stderr.as_str());
                s
            },
            AiError::NoOutput { program } => {
                let mut s = program.clone();
                s.append(" produced no output");
                s
            },
            AiError::MissingApiKey { env } => {
                let mut s = "environment variable ".to_owned();
                s.append(env.as_str());
                s.append(" is not set");
                s
            },
            AiError::ApiStatus { code, detail } => {
                let mut s = "API returned status ".to_owned();
                push_decimal(&mut s, *code as u64);
                s.append(": ");
                s.append(detail.as_str());
                s
            },
            AiError::RequestFailed { detail } => {
                let mut s = "request failed: ".to_owned();
                s.append(detail.as_str());
                s
            },
            AiError::InvalidJson { detail } => {
                let mut s = "could not parse response as JSON: ".to_owned();
                s.append(detail.as_str());
                s
            },
            AiError::NoMessage => "response did not contain a message".to_owned(),
            AiError::EmptyMessage => "model returned an empty message".to_owned(),
        }
    }
}

/// The number of bytes of the UTF-8 encoding of `s` (what `str::len` counts).
pub open spec fn utf8_len(s: Seq<char>) -> nat {
    encode_utf8(s).len()
}

/// `k` characters of `s` are the longest prefix whose encoding fits in
/// `max_bytes` bytes: the cut lands on the last character boundary at or
/// before `max_bytes`.
pub open spec fn longest_fitting_prefix(s: Seq<char>, max_bytes: nat, k: nat) -> bool {
    &&& k <= s.len()
    &&& utf8_len(s.take(k as int)) <= max_bytes
    &&& (k < s.len() ==> utf8_len(s.take(k + 1 as int)) > max_bytes)
}

/// The marker appended to a truncated diff.
pub open spec fn truncation_marker() -> Seq<char> {
    "\n\n[diff truncated]"@
}

/// `diff` cut to at most `max_bytes` bytes on a character boundary, with the
/// marker appended when content was dropped; `max_bytes == 0` keeps it whole.
pub open spec fn truncated(diff: Seq<char>, max_bytes: nat) -> Seq<char> {
    if max_bytes == 0 || utf8_len(diff) <= max_bytes {
        diff
    } else {
        diff.take((choose|k: nat| longest_fitting_prefix(diff, max_bytes, k)) as int)
            + truncation_marker()
    }
}

proof fn lemma_encode_utf8_append(a: Seq<char>, b: Seq<char>)
    ensures
        encode_utf8(a + b) == encode_utf8(a) + encode_utf8(b),
    decreases a.len(),
{
    if a.len() == 0 {
        assert(a + b =~= b);
    } else {
        assert((a + b).drop_first() =~= a.drop_first() + b);
        lemma_encode_utf8_append(a.drop_first(), b);
        assert(encode_utf8(a) + encode_utf8(b) =~= encode_scalar(a[0] as u32) + (encode_utf8(
            a.drop_first(),
        ) + encode_utf8(b)));
    }
}

/// The encoding of one more character adds its width.
proof fn lemma_utf8_len_take_step(s: Seq<char>, k: int)
    requires
        0 <= k < s.len(),
    ensures
        utf8_len(s.take(k + 1)) == utf8_len(s.take(k)) + encode_scalar(s[k] as u32).len(),
{
    let one = seq![s[k]];
    assert(s.take(k + 1) =~= s.take(k) + one);
    lemma_encode_utf8_append(s.take(k), one);
    assert(one.drop_first() =~= Seq::<char>::empty());
    assert(encode_utf8(one.drop_first()) =~= Seq::<u8>::empty());
    assert(encode_utf8(one) =~= encode_scalar(one[0] as u32));
}

/// Longer prefixes take more bytes.
proof fn lemma_utf8_len_monotone(s: Seq<char>, j: int, k: int)
    requires
        0 <= j <= k <= s.len(),
    ensures
        utf8_len(s.take(j)) + (k - j) <= utf8_len(s.take(k)),
    decreases k - j,
{
    if j < k {
        lemma_utf8_len_monotone(s, j, k - 1);
        lemma_utf8_len_take_step(s, k - 1);
    }
}

/// There is exactly one longest fitting prefix.
proof fn lemma_longest_fitting_prefix_unique(s: Seq<char>, max_bytes: nat, k1: nat, k2: nat)
    requires
        longest_fitting_prefix(s, max_bytes, k1),
        longest_fitting_prefix(s, max_bytes, k2),
    ensures
        k1 == k2,
{
    if k1 < k2 {
        lemma_utf8_len_monotone(s, k1 + 1 as int, k2 as int);
    } else if k2 < k1 {
        lemma_utf8_len_monotone(s, k2 + 1 as int, k1 as int);
    }
}

/// From a prefix that fits, the longest fitting prefix exists.
proof fn lemma_longest_fitting_prefix_from(s: Seq<char>, max_bytes: nat, k: nat)
    requires
        k <= s.len(),
        utf8_len(s.take(k as int)) <= max_bytes,
    ensures
        exists|j: nat| longest_fitting_prefix(s, max_bytes, j),
    decreases s.len() - k,
{
    if k < s.len() && utf8_len(s.take(k + 1 as int)) <= max_bytes {
        lemma_longest_fitting_prefix_from(s, max_bytes, k + 1);
    } else {
        assert(longest_fitting_prefix(s, max_bytes, k));
    }
}

/// A truncated diff is a prefix of the diff, cut on a character boundary,
/// that takes at most `max_bytes` bytes, followed by the marker; a diff
/// that fits, or a limit of 0, leaves it whole.
pub proof fn law_truncation_keeps_a_fitting_prefix(diff: Seq<char>, max_bytes: nat)
    ensures
        max_bytes == 0 || utf8_len(diff) <= max_bytes ==> truncated(diff, max_bytes) == diff,
        max_bytes > 0 && utf8_len(diff) > max_bytes ==> exists|k: int|
            0 <= k < diff.len() && utf8_len(#[trigger] diff.take(k)) <= max_bytes && truncated(
                diff,
                max_bytes,
            ) == diff.take(k) + truncation_marker(),
{
    if max_bytes > 0 && utf8_len(diff) > max_bytes {
        assert(diff.take(0) =~= Seq::<char>::empty());
        assert(encode_utf8(Seq::<char>::empty()) =~= Seq::<u8>::empty());
        lemma_longest_fitting_prefix_from(diff, max_bytes, 0);
        let k = choose|k: nat| longest_fitting_prefix(diff, max_bytes, k);
        if k == diff.len() {
            assert(diff.take(k as int) =~= diff);
        }
        assert(0 <= k < diff.len() && utf8_len(diff.take(k as int)) <= max_bytes);
    }
}

/// The number of bytes `c` takes in UTF-8.
fn utf8_width(c: char) -> (w: usize)
    ensures
        w == encode_scalar(c as u32).len(),
{
    let v = c as u32;
    if v <= 0x7F {
        1
    } else if v <= 0x7FF {
        2
    } else if v <= 0xFFFF {
        proof {
            vstd::utf8::char_is_scalar(c);
        }
        3
    } else {
        4
    }
}

/// Truncate `diff` to at most `max_bytes` bytes on a char boundary, appending a
/// marker when content was dropped. `max_bytes == 0` disables truncation.
pub fn truncate_diff(diff: &str, max_bytes: usize) -> (r: String)
    ensures
        r@ == truncated(diff@, max_bytes as nat),
{
    let bytes = diff.as_bytes();
    if max_bytes == 0 || bytes.len() <= max_bytes {
        return diff.to_owned();
    }
    let v = chars_of(diff);
    let mut k: usize = 0;
    let mut used: usize = 0;
    assert(v@.take(0) =~= Seq::<char>::empty());
    while k < v.len() && utf8_width(v[k]) <= max_bytes - used
        invariant
            v@ == diff@,
            k <= v@.len(),
            used == utf8_len(v@.take(k as int)),
            used <= max_bytes,
        decreases v@.len() - k,
    {
        let w = utf8_width(v[k]);
        proof {
            lemma_utf8_len_take_step(v@, k as int);
        }
        used = used + w;
        k = k + 1;
    }
    proof {
        if k < v@.len() {
            lemma_utf8_len_take_step(v@, k as int);
        }
        if k == v@.len() {
            assert(v@.take(k as int) =~= v@);
            assert(false);
        }
        assert(longest_fitting_prefix(diff@, max_bytes as nat, k as nat));
        let c = choose|j: nat| longest_fitting_prefix(diff@, max_bytes as nat, j);
        lemma_longest_fitting_prefix_unique(diff@, max_bytes as nat, c, k as nat);
    }
    let mut out = string_from_range(&v, 0, k);
    out.append("\n\n[diff truncated]");
    assert(v@.subrange(0, k as int) =~= diff@.take(k as int));
    out
}

/// A command to run: the program, its arguments, and what to write to its input.
#[derive(Debug)]
pub struct CommandRequest {
    pub program: String,
    pub args: Vec<String>,
    pub stdin: String,
}

/// A chat-completions request to an OpenAI-compatible API.
#[derive(Debug)]
pub struct ApiRequest {
    pub url: String,
    pub model: String,
    pub system_prompt: String,
    pub user_content: String,
    /// The variable holding the API key; empty means no `Authorization` header.
    pub api_key_env: String,
}

/// What to send to generate a commit message.
#[derive(Debug)]
pub enum AiRequest {
    Api(ApiRequest),
    Command(CommandRequest),
}

/// The arguments of a command with every `{prompt}` replaced by the prompt.
pub open spec fn substituted_args(args: Seq<String>, system_prompt: Seq<char>) -> Seq<Seq<char>> {
    args.map_values(|a: String| replace_all(a@, "{prompt}"@, system_prompt))
}

/// The command to run for `command` (program first, then arguments), with
/// `{prompt}` in each argument replaced by the system prompt and `diff` as
/// its input; an empty `command` is an error.
pub fn command_request(command: &Vec<String>, system_prompt: &str, diff: &str) -> (r: Result<
    CommandRequest,
    AiError,
>)
    ensures
        command@.len() == 0 <==> r matches Err(AiError::EmptyCommand),
        command@.len() > 0 ==> (r matches Ok(c) && c.program@ == command@[0]@
            && views(c.args@) == substituted_args(command@.drop_first(), system_prompt@)
            && c.stdin@ == diff@),
{
    if command.len() == 0 {
        return Err(AiError::EmptyCommand);
    }
    let program = command[0].clone();
    let mut args: Vec<String> = Vec::new();
    let mut i: usize = 1;
    while i < command.len()
        invariant
            1 <= i <= command@.len(),
            views(args@) == substituted_args(command@.subrange(1, i as int), system_prompt@),
        decreases command@.len() - i,
    {
        let a = replace_str(command[i].as_str(), "{prompt}", system_prompt);
        let ghost before = args@;
        args.push(a);
        proof {
            let sub = command@.subrange(1, i + 1);
            assert(sub =~= command@.subrange(1, i as int).push(command@[i as int]));
            assert(args@ =~= before.push(a));
            assert(views(args@) =~= views(before).push(a@));
            assert(substituted_args(sub, system_prompt@) =~= substituted_args(
                command@.subrange(1, i as int),
                system_prompt@,
            ).push(replace_all(command@[i as int]@, "{prompt}"@, system_prompt@)));
        }
        i = i + 1;
    }
    assert(command@.subrange(1, command@.len() as int) =~= command@.drop_first());
    Ok(CommandRequest { program, args, stdin: diff.to_owned() })
}

/// The commit message a command produced: its output trimmed, if it exited
/// successfully and printed something.
pub fn command_message(program: &str, success: bool, status: &str, stdout: &str, stderr: &str) -> (r:
    Result<String, AiError>)
    ensures
        !success ==> (r matches Err(AiError::Exited { program: p, status: st, stderr: e })
            && p@ == program@ && st@ == status@ && e@ == trim(stderr@)),
        success && trim(stdout@).len() == 0 ==> (r matches Err(AiError::NoOutput { program: p })
            && p@ == program@),
        success && trim(stdout@).len() > 0 ==> (r matches Ok(m) && m@ == trim(stdout@)),
{
    if !success {
        return Err(
            AiError::Exited {
                program: program.to_owned(),
                status: status.to_owned(),
                stderr: trim_str(stderr),
            },
        );
    }
    let message = trim_str(stdout);
    if message.as_str().is_empty() {
        return Err(AiError::NoOutput { program: program.to_owned() });
    }
    Ok(message)
}

/// The chat-completions endpoint under `base_url` (trailing `/` dropped).
pub open spec fn completions_url(base_url: Seq<char>) -> Seq<char> {
    strip_suffixes(base_url, "/"@) + "/chat/completions"@
}

/// The request to send for `backend = "api"`.
pub fn api_request(config: &AiConfig, system_prompt: &str, diff: &str) -> (r: ApiRequest)
    ensures
        r.url@ == completions_url(config.base_url@),
        r.model@ == config.model@,
        r.system_prompt@ == system_prompt@,
        r.user_content@ == diff@,
        r.api_key_env@ == config.api_key_env@,
{
    let base = chars_of(config.base_url.as_str());
    let slash = chars_of("/");
    let n = strip_suffixes_len(&base, base.len(), &slash);
    assert(base@.take(base@.len() as int) =~= base@);
    let mut url = string_from_range(&base, 0, n);
    assert(base@.subrange(0, n as int) =~= base@.take(n as int));
    url.append("/chat/completions");
    ApiRequest {
        url,
        model: config.model.clone(),
        system_prompt: system_prompt.to_owned(),
        user_content: diff.to_owned(),
        api_key_env: config.api_key_env.clone(),
    }
}

/// The `Authorization` header value for a request, given the value of its key
/// variable as the environment reports it: none when no variable is
/// configured, `Bearer <key>` when it is set, an error when it is not.
pub fn authorization(api_key_env: &str, key: Option<String>) -> (r: Result<Option<String>, AiError>)
    ensures
        api_key_env@.len() == 0 ==> r matches Ok(None),
        api_key_env@.len() > 0 && key is None ==> (r matches Err(AiError::MissingApiKey { env })
            && env@ == api_key_env@),
        api_key_env@.len() > 0 && key is Some ==> (r matches Ok(Some(h)) && h@ == "Bearer "@
            + key->0@),
{
    if api_key_env.is_empty() {
        return Ok(None);
    }
    match key {
        Some(k) => {
            let mut h = "Bearer ".to_owned();
            h.append(k.as_str());
            Ok(Some(h))
        },
        None => Err(AiError::MissingApiKey { env: api_key_env.to_owned() }),
    }
}

/// The error for a non-success status: the code and the trimmed body, or a
/// placeholder when the body could not be read.
pub fn status_error(code: u16, body: Option<String>) -> (e: AiError)
    ensures
        e matches AiError::ApiStatus { code: c, detail } && c == code && detail@ == match body {
            Some(b) => trim(b@),
            None => trim("<unreadable body>"@),
        },
{
    let detail = match body {
        Some(b) => trim_str(b.as_str()),
        None => trim_str("<unreadable body>"),
    };
    AiError::ApiStatus { code, detail }
}

/// What serde_json finds in a chat-completions response body: `None` when the
/// body is not JSON, else the string at `choices[0].message.content`, if any.
pub uninterp spec fn chat_content(body: Seq<char>) -> Option<Option<Seq<char>>>;

/// The message serde_json's error reports (its `Display`) when `body` is not
/// JSON.
pub uninterp spec fn json_error_text(body: Seq<char>) -> Seq<char>;

/// Parses `body` with `serde_json::from_str` and reads
/// `choices[0].message.content` with `Value::get` and `Value::as_str`. The
/// contract names the outcome [`chat_content`], and the text of the parse
/// error [`json_error_text`].
#[verifier::external_body]
fn parse_chat_content(body: &str) -> (r: Result<Option<String>, String>)
    ensures
        match r {
            Ok(c) => chat_content(body@) == Some(
                match c {
                    Some(s) => Some(s@),
                    None => None::<Seq<char>>,
                },
            ),
            Err(e) => chat_content(body@) is None && e@ == json_error_text(body@),
        },
{
    match serde_json::from_str::<serde_json::Value>(body) {
        Ok(value) => Ok(
            value.get("choices").and_then(|c| c.get(0)).and_then(|c| c.get("message")).and_then(
                |m| m.get("content"),
            ).and_then(|c| c.as_str()).map(|s| s.to_string()),
        ),
        Err(e) => Err(e.to_string()),
    }
}

/// The commit message from the content found in a response: the trimmed
/// content, an error when there is none or it is blank.
pub fn message_from_content(content: Option<String>) -> (r: Result<String, AiError>)
    ensures
        content is None ==> r matches Err(AiError::NoMessage),
        content is Some && trim(content->0@).len() == 0 ==> r matches Err(AiError::EmptyMessage),
        content is Some && trim(content->0@).len() > 0 ==> (r matches Ok(m) && m@ == trim(content->0@)),
{
    match content {
        None => Err(AiError::NoMessage),
        Some(c) => {
            let m = trim_str(c.as_str());
            if m.as_str().is_empty() {
                Err(AiError::EmptyMessage)
            } else {
                Ok(m)
            }
        },
    }
}

/// The commit message in a chat-completions response body.
pub fn api_message(body: &str) -> (r: Result<String, AiError>)
    ensures
        chat_content(body@) is None ==> (r matches Err(AiError::InvalidJson { detail }) && detail@
            == json_error_text(body@)),
        chat_content(body@) == Some(None::<Seq<char>>) ==> r matches Err(AiError::NoMessage),
        chat_content(body@) is Some && chat_content(body@)->0 is Some && trim(
            chat_content(body@)->0->0,
        ).len() == 0 ==> r matches Err(AiError::EmptyMessage),
        chat_content(body@) is Some && chat_content(body@)->0 is Some && trim(
            chat_content(body@)->0->0,
        ).len() > 0 ==> (r matches Ok(m) && m@ == trim(chat_content(body@)->0->0)),
{
    match parse_chat_content(body) {
        Ok(content) => message_from_content(content),
        Err(detail) => Err(AiError::InvalidJson { detail }),
    }
}

/// `r` is what to send to generate a commit message for `diff` with the
/// backend `config` selects: the diff truncated to `config.max_diff_bytes`,
/// sent with the system prompt to the API or written to the command (an
/// empty command is an error). The URL, model and key variable come from
/// `config` alone.
pub open spec fn request_for(config: &AiConfig, system_prompt: Seq<char>, diff: Seq<char>, r: Result<
    AiRequest,
    AiError,
>) -> bool {
    match config.backend {
        AiBackend::Api => r matches Ok(AiRequest::Api(a)) && a.url@ == completions_url(
            config.base_url@,
        ) && a.model@ == config.model@ && a.system_prompt@ == system_prompt && a.user_content@
            == truncated(diff, config.max_diff_bytes as nat) && a.api_key_env@ == config.api_key_env@,
        AiBackend::Command => if config.command@.len() == 0 {
            r matches Err(AiError::EmptyCommand)
        } else {
            r matches Ok(AiRequest::Command(c)) && c.program@ == config.command@[0]@ && views(
                c.args@,
            ) == substituted_args(config.command@.drop_first(), system_prompt) && c.stdin@
                == truncated(diff, config.max_diff_bytes as nat)
        },
    }
}

/// What to send to generate a commit message for `diff` (see [`request_for`]).
pub fn commit_message_request(config: &AiConfig, system_prompt: &str, diff: &str) -> (r: Result<
    AiRequest,
    AiError,
>)
    ensures
        request_for(config, system_prompt@, diff@, r),
{
    let diff = truncate_diff(diff, config.max_diff_bytes);
    match config.backend {
        AiBackend::Api => Ok(AiRequest::Api(api_request(config, system_prompt, diff.as_str()))),
        AiBackend::Command => match command_request(&config.command, system_prompt, diff.as_str()) {
            Ok(c) => Ok(AiRequest::Command(c)),
            Err(e) => Err(e),
        },
    }
}

} // verus!
