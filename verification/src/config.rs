//! Configuration: general behaviour, styles and the AI commit-message
//! settings, with the prompt lookup per repository and the `owner/repo`
//! parse of a remote URL that it keys on.
use vstd::prelude::*;

use crate::ops::str_views;
use crate::style::{Color, Modifier, Style};
use crate::text::{
    chars_of, find, find_in, first_match_at, nonempty_segments, segments_of, string_of, strip_suffixes,
    strip_suffixes_len, trim,
};

verus! {

#[derive(Clone, Copy, Debug, PartialEq, Eq, Structural)]
pub enum AiBackend {
    /// Call an OpenAI-compatible chat-completions endpoint over HTTP.
    Api,
    /// Run a local command (e.g. a model provider's CLI) that reads the
    /// diff on stdin and prints the commit message on stdout.
    Command,
}

#[derive(Debug)]
pub struct RepoAiConfig {
    /// Overrides [`AiConfig::prompt_template`] for this repository.
    pub prompt_template: Option<String>,
}

/// One per-repository section of `[ai.repo]`, under its key.
#[derive(Debug)]
pub struct RepoAiEntry {
    pub key: String,
    pub config: RepoAiConfig,
}

#[derive(Debug)]
pub struct AiConfig {
    /// Whether the AI commit-message action is available.
    pub enabled: bool,
    /// Which backend generates the message.
    pub backend: AiBackend,
    /// Command to run for `backend = "command"`. The first element is the
    /// program, the rest are arguments; every `{prompt}` occurrence is replaced
    /// with the resolved system prompt, and the staged diff is written to the
    /// process's stdin.
    pub command: Vec<String>,
    /// Base URL of an OpenAI-compatible chat-completions API.
    pub base_url: String,
    /// Name of the environment variable holding the API key. Empty means no
    /// `Authorization` header is sent.
    pub api_key_env: String,
    pub model: String,
    /// Staged diffs larger than this are truncated before being sent.
    pub max_diff_bytes: usize,
    /// System prompt guiding the model, used when no per-repository override
    /// matches (see `repo`).
    pub prompt_template: String,
    /// Per-repository overrides, by key (`owner/repo` or a directory name).
    /// Only the prompt is overridable here: connection, credential and model
    /// settings always come from the top-level section.
    pub repo: Vec<RepoAiEntry>,
}

impl Default for AiConfig {
    fn default() -> (c: Self)
        ensures
            !c.enabled,
            c.backend == AiBackend::Api,
            c.command@.len() == 0,
            c.base_url@ == "https://api.openai.com/v1"@,
            c.api_key_env@ == "OPENAI_API_KEY"@,
            c.model@ == "gpt-4o-mini"@,
            c.max_diff_bytes == 16000,
            c.prompt_template@.len() == 0,
            c.repo@.len() == 0,
            c.well_formed(),
    {
        AiConfig {
            enabled: false,
            backend: AiBackend::Api,
            command: Vec::new(),
            base_url: "https://api.openai.com/v1".to_owned(),
            api_key_env: "OPENAI_API_KEY".to_owned(),
            model: "gpt-4o-mini".to_owned(),
            max_diff_bytes: 16000,
            prompt_template: String::new(),
            repo: Vec::new(),
        }
    }
}

/// The non-empty prompt override that `repo` holds for `key`: that of the
/// first entry under `key`, if it has a non-empty one.
pub open spec fn repo_override(repo: Seq<RepoAiEntry>, key: Seq<char>) -> Option<Seq<char>>
    decreases repo.len(),
{
    if repo.len() == 0 {
        None
    } else if repo[0].key@ == key {
        match repo[0].config.prompt_template {
            Some(p) => if p@.len() > 0 {
                Some(p@)
            } else {
                None
            },
            None => None,
        }
    } else {
        repo_override(repo.drop_first(), key)
    }
}

/// The prompt for a repository known by `keys`, in order of preference: the
/// override of the first key that has a non-empty one, else `global`.
pub open spec fn prompt_choice(
    repo: Seq<RepoAiEntry>,
    keys: Seq<Seq<char>>,
    global: Seq<char>,
) -> Seq<char>
    decreases keys.len(),
{
    if keys.len() == 0 {
        global
    } else {
        match repo_override(repo, keys[0]) {
            Some(p) => p,
            None => prompt_choice(repo, keys.drop_first(), global),
        }
    }
}

/// The keys of the per-repository overrides, in order.
pub open spec fn repo_keys(repo: Seq<RepoAiEntry>) -> Seq<Seq<char>> {
    repo.map_values(|e: RepoAiEntry| e.key@)
}

/// The prompt an entry overrides with: its template, when not empty.
pub open spec fn entry_override(e: RepoAiEntry) -> Option<Seq<char>> {
    match e.config.prompt_template {
        Some(p) => if p@.len() > 0 {
            Some(p@)
        } else {
            None
        },
        None => None,
    }
}

/// Keyed by distinct keys, the overrides form a map: the override for the
/// key of any entry is that entry's.
pub proof fn law_override_is_the_entrys(repo: Seq<RepoAiEntry>, i: int)
    requires
        repo_keys(repo).no_duplicates(),
        0 <= i < repo.len(),
    ensures
        repo_override(repo, repo[i].key@) == entry_override(repo[i]),
    decreases repo.len(),
{
    if i > 0 {
        assert(repo_keys(repo)[0] != repo_keys(repo)[i]);
        let rest = repo.drop_first();
        assert(repo_keys(rest) =~= repo_keys(repo).drop_first());
        assert(rest[i - 1] == repo[i]);
        law_override_is_the_entrys(rest, i - 1);
    }
}

/// An override found for a key is never empty.
proof fn lemma_override_nonempty(repo: Seq<RepoAiEntry>, key: Seq<char>)
    ensures
        repo_override(repo, key) matches Some(p) ==> p.len() > 0,
    decreases repo.len(),
{
    if repo.len() > 0 && repo[0].key@ != key {
        lemma_override_nonempty(repo.drop_first(), key);
    }
}

/// The prompt chosen is the global template or a non-empty override: an
/// empty override is skipped, never sent.
pub proof fn law_prompt_never_empty_override(
    repo: Seq<RepoAiEntry>,
    keys: Seq<Seq<char>>,
    global: Seq<char>,
)
    ensures
        prompt_choice(repo, keys, global) == global || prompt_choice(repo, keys, global).len() > 0,
    decreases keys.len(),
{
    if keys.len() > 0 {
        lemma_override_nonempty(repo, keys[0]);
        law_prompt_never_empty_override(repo, keys.drop_first(), global);
    }
}

impl AiConfig {
    /// Each repository key is listed once: the overrides form a map.
    pub open spec fn well_formed(&self) -> bool {
        repo_keys(self.repo@).no_duplicates()
    }

    /// The override that `self.repo` holds for `key`, if non-empty.
    fn lookup<'a>(&'a self, key: &str) -> (r: Option<&'a str>)
        ensures
            match r {
                Some(p) => repo_override(self.repo@, key@) == Some(p@),
                None => repo_override(self.repo@, key@) is None,
            },
    {
        assert(self.repo@.skip(0) =~= self.repo@);
        let mut i: usize = 0;
        while i < self.repo.len()
            invariant
                i <= self.repo@.len(),
                repo_override(self.repo@, key@) == repo_override(self.repo@.skip(i as int), key@),
            decreases self.repo@.len() - i,
        {
            let entry = &self.repo[i];
            assert(self.repo@.skip(i as int)[0] == self.repo@[i as int]);
            if crate::text::same_text(entry.key.as_str(), key) {
                return match &entry.config.prompt_template {
                    Some(p) => if p.as_str().is_empty() {
                        None
                    } else {
                        Some(p.as_str())
                    },
                    None => None,
                };
            }
            assert(self.repo@.skip(i as int).drop_first() =~= self.repo@.skip(i + 1));
            i = i + 1;
        }
        None
    }

    /// Resolve the system prompt for a repository, trying each key in `keys` in
    /// order and falling back to the global [`AiConfig::prompt_template`] when
    /// none has a non-empty override.
    pub fn prompt_for<'a>(&'a self, keys: &[&str]) -> (p: &'a str)
        ensures
            p@ == prompt_choice(self.repo@, str_views(keys@), self.prompt_template@),
    {
        assert(str_views(keys@).skip(0) =~= str_views(keys@));
        let mut i: usize = 0;
        while i < keys.len()
            invariant
                i <= keys@.len(),
                prompt_choice(self.repo@, str_views(keys@), self.prompt_template@)
                    == prompt_choice(
                    self.repo@,
                    str_views(keys@).skip(i as int),
                    self.prompt_template@,
                ),
            decreases keys@.len() - i,
        {
            let ghost rest = str_views(keys@).skip(i as int);
            assert(rest[0] == keys@[i as int]@);
            if let Some(p) = self.lookup(keys[i]) {
                return p;
            }
            assert(rest.drop_first() =~= str_views(keys@).skip(i + 1));
            i = i + 1;
        }
        self.prompt_template.as_str()
    }
}

/// The path part of a remote URL: what follows the host's first `/` for
/// `scheme://host/path`, what follows the first `:` for scp-like
/// `host:path`, else the whole URL.
pub open spec fn url_path(url: Seq<char>) -> Option<Seq<char>> {
    match find(url, "://"@) {
        Some(idx) => {
            let after = url.skip(idx + 3);
            match find(after, "/"@) {
                Some(slash) => Some(after.skip(slash + 1)),
                None => None,
            }
        },
        None => match find(url, ":"@) {
            Some(colon) => Some(url.skip(colon + 1)),
            None => Some(url),
        },
    }
}

/// `owner/repo` of a remote URL: the last two non-empty path segments once
/// trailing `/`, `.git` and `/` are stripped in that order.
pub open spec fn owner_repo(url: Seq<char>) -> Option<Seq<char>> {
    match url_path(trim(url)) {
        Some(path) => {
            let stripped = strip_suffixes(
                strip_suffixes(strip_suffixes(path, "/"@), ".git"@),
                "/"@,
            );
            let segs = nonempty_segments(stripped, '/');
            if segs.len() >= 2 {
                Some(segs[segs.len() - 2] + "/"@ + segs[segs.len() - 1])
            } else {
                None
            }
        },
        None => None,
    }
}

/// Appending text without `:` or `/` to a URL appends it to its path; the
/// path is what ends the URL.
proof fn lemma_url_path_append(url: Seq<char>, t: Seq<char>)
    requires
        forall|k: int| 0 <= k < t.len() ==> #[trigger] t[k] != ':' && t[k] != '/',
    ensures
        url_path(url + t) == match url_path(url) {
            Some(p) => Some(p + t),
            None => None,
        },
        url_path(url) matches Some(p) ==> exists|k: int| 0 <= k <= url.len() && p == #[trigger] url.skip(k),
{
    reveal_strlit("://");
    reveal_strlit("/");
    reveal_strlit(":");
    let sep3 = "://"@;
    let slash = "/"@;
    let colon = ":"@;
    assert forall|k: int| 0 <= k < t.len() implies !sep3.contains(#[trigger] t[k]) by {
        if sep3.contains(t[k]) {
            let j = choose|j: int| 0 <= j < sep3.len() && sep3[j] == t[k];
        }
    }
    assert forall|k: int| 0 <= k < t.len() implies !slash.contains(#[trigger] t[k]) by {
        if slash.contains(t[k]) {
            let j = choose|j: int| 0 <= j < slash.len() && slash[j] == t[k];
        }
    }
    assert forall|k: int| 0 <= k < t.len() implies !colon.contains(#[trigger] t[k]) by {
        if colon.contains(t[k]) {
            let j = choose|j: int| 0 <= j < colon.len() && colon[j] == t[k];
        }
    }
    crate::text::lemma_find_append(url, t, sep3);
    crate::text::lemma_find(url, sep3);
    match find(url, sep3) {
        Some(idx) => {
            let after = url.skip(idx + 3);
            assert((url + t).skip(idx + 3) =~= after + t);
            crate::text::lemma_find_append(after, t, slash);
            crate::text::lemma_find(after, slash);
            match find(after, slash) {
                Some(sl) => {
                    assert((after + t).skip(sl + 1) =~= after.skip(sl + 1) + t);
                    assert(after.skip(sl + 1) =~= url.skip(idx + 3 + sl + 1));
                },
                None => {},
            }
        },
        None => {
            crate::text::lemma_find_append(url, t, colon);
            crate::text::lemma_find(url, colon);
            match find(url, colon) {
                Some(c) => {
                    assert((url + t).skip(c + 1) =~= url.skip(c + 1) + t);
                },
                None => {
                    assert(url.skip(0) =~= url);
                },
            }
        },
    }
}

/// A remote URL names the same `owner/repo` with `.git` appended (when it
/// is trimmed and does not end in `/`).
pub proof fn law_dot_git_suffix_ignored(url: Seq<char>)
    requires
        trim(url) == url,
        !(url.len() > 0 && url.last() == '/'),
    ensures
        owner_repo(url + ".git"@) == owner_repo(url),
{
    reveal_strlit(".git");
    reveal_strlit("/");
    let g = ".git"@;
    let u = url + g;
    assert(g =~= seq!['.', 'g', 'i', 't']);
    // The URL stays trimmed.
    crate::text::lemma_leading_ws_bound(url);
    crate::text::lemma_trailing_ws_bound(url.skip(crate::text::leading_ws(url) as int));
    assert(crate::text::leading_ws(url) == 0);
    assert(u[0] == if url.len() > 0 { url[0] } else { '.' });
    assert(crate::text::leading_ws(u) == 0);
    assert(u.skip(0) =~= u);
    assert(u.drop_last() =~= url + seq!['.', 'g', 'i']);
    assert(crate::text::trailing_ws(u) == 0);
    assert(u.take(u.len() as int) =~= u);
    assert(trim(u) == u);
    lemma_url_path_append(url, g);
    match url_path(url) {
        Some(p) => {
            let k = choose|k: int| 0 <= k <= url.len() && p == #[trigger] url.skip(k);
            let pg = p + g;
            assert("/"@ =~= seq!['/']);
            assert(pg.skip(pg.len() - 1) != "/"@) by {
                assert(pg.skip(pg.len() - 1)[0] == 't');
            }
            assert(strip_suffixes(pg, "/"@) == pg);
            assert(pg.skip(pg.len() - 4) =~= g);
            assert(pg.take(pg.len() - 4) =~= p);
            assert(strip_suffixes(pg, g) == strip_suffixes(p, g));
            if p.len() > 0 {
                assert(p.last() == url.last());
                assert(p.skip(p.len() - 1) != "/"@) by {
                    assert(p.skip(p.len() - 1)[0] == p.last());
                }
            }
            assert(strip_suffixes(p, "/"@) == p);
        },
        None => {},
    }
}

/// What `owner_repo` gives is two non-empty names without `/`, joined by
/// `/`.
pub proof fn law_owner_repo_shape(url: Seq<char>)
    ensures
        owner_repo(url) matches Some(s) ==> exists|o: Seq<char>, r: Seq<char>|
            #![trigger o + "/"@ + r]
            s == o + "/"@ + r && o.len() > 0 && r.len() > 0 && !o.contains('/') && !r.contains('/'),
{
    match url_path(trim(url)) {
        Some(path) => {
            let stripped = strip_suffixes(
                strip_suffixes(strip_suffixes(path, "/"@), ".git"@),
                "/"@,
            );
            let segs = nonempty_segments(stripped, '/');
            crate::text::lemma_nonempty_segments(stripped, '/');
            if segs.len() >= 2 {
                let o = segs[segs.len() - 2];
                let r = segs[segs.len() - 1];
                assert(o.len() > 0 && !o.contains('/'));
                assert(r.len() > 0 && !r.contains('/'));
                assert(owner_repo(url) == Some(o + "/"@ + r));
            }
        },
        None => {},
    }
}

/// Extract `owner/repo` from a git remote URL, or `None` if it can't be parsed.
///
/// Handles the common forms: `https://host/owner/repo(.git)`,
/// `ssh://git@host/owner/repo(.git)`, and scp-style `git@host:owner/repo(.git)`.
/// The last two path segments are used, so hosts with nested groups collapse to
/// their final `group/repo` pair.
pub fn owner_repo_from_url(url: &str) -> (r: Option<String>)
    ensures
        match r {
            Some(s) => owner_repo(url@) == Some(s@),
            None => owner_repo(url@) is None,
        },
{
    let t = crate::text::trim_str(url);
    let u = chars_of(t.as_str());
    let ulen = u.len();
    let scheme_sep = chars_of("://");
    let slash = chars_of("/");
    let colon = chars_of(":");
    let dot_git = chars_of(".git");
    proof {
        crate::text::lemma_find(u@, "://"@);
        crate::text::lemma_find(u@, ":"@);
        reveal_strlit("://");
        reveal_strlit(":");
    }
    // The path is `u[start..]`.
    let start: usize = match find_in(&u, &scheme_sep) {
        Some(idx) => {
            assert(first_match_at(u@, "://"@, idx as int));
            assert(u@.subrange(idx as int, idx + 3).len() == 3);
            let after = string_from(&u, idx + 3);
            let after_chars = chars_of(after.as_str());
            proof {
                crate::text::lemma_find(after_chars@, "/"@);
                reveal_strlit("/");
            }
            match find_in(&after_chars, &slash) {
                Some(s) => {
                    assert(after_chars@.skip(s + 1) =~= u@.skip(idx + 3 + s + 1));
                    idx + 3 + s + 1
                },
                None => return None,
            }
        },
        None => match find_in(&u, &colon) {
            Some(c) => {
                assert(first_match_at(u@, ":"@, c as int));
                assert(u@.subrange(c as int, c + 1).len() == 1);
                c + 1
            },
            None => 0,
        },
    };
    let ghost path = u@.skip(start as int);
    proof {
        assert(url_path(u@) == Some(path)) by {
            if find(u@, "://"@) is None {
                if find(u@, ":"@) is None {
                    assert(u@.skip(0) =~= u@);
                }
            }
        }
    }
    let rest = string_from(&u, start);
    let p = chars_of(rest.as_str());
    assert(p@.take(p@.len() as int) =~= path);
    let n1 = strip_suffixes_len(&p, p.len(), &slash);
    let n2 = strip_suffixes_len(&p, n1, &dot_git);
    let n3 = strip_suffixes_len(&p, n2, &slash);
    let segs = segments_of(&p, 0, n3, '/');
    assert(p@.subrange(0, n3 as int) =~= p@.take(n3 as int));
    let k = segs.len();
    if k >= 2 {
        let mut s = string_of(&segs[k - 2]);
        s.append("/");
        let last = string_of(&segs[k - 1]);
        s.append(last.as_str());
        proof {
            let views = segs@.map_values(|q: Vec<char>| q@);
            assert(views[k - 2] == segs@[k - 2]@);
            assert(views[k - 1] == segs@[k - 1]@);
        }
        Some(s)
    } else {
        None
    }
}

/// The string made of `v[start..]`.
fn string_from(v: &Vec<char>, start: usize) -> (s: String)
    requires
        start <= v@.len(),
    ensures
        s@ == v@.skip(start as int),
{
    let s = crate::text::string_from_range(v, start, v.len());
    assert(v@.subrange(start as int, v@.len() as int) =~= v@.skip(start as int));
    s
}

#[derive(Debug)]
pub struct BoolConfigEntry {
    pub enabled: bool,
}

/// When discarding asks for confirmation: at or below `File` it does.
#[derive(Clone, Copy, Debug, PartialEq, Eq, Structural, PartialOrd, Ord)]
pub enum ConfirmDiscardOption {
    Line,
    Hunk,
    File,
    Never,
}

impl ConfirmDiscardOption {
    /// The position of the option in declaration order.
    pub open spec fn spec_rank(self) -> nat {
        match self {
            ConfirmDiscardOption::Line => 0,
            ConfirmDiscardOption::Hunk => 1,
            ConfirmDiscardOption::File => 2,
            ConfirmDiscardOption::Never => 3,
        }
    }

    pub fn rank(self) -> (r: u8)
        ensures
            r == self.spec_rank(),
    {
        match self {
            ConfirmDiscardOption::Line => 0,
            ConfirmDiscardOption::Hunk => 1,
            ConfirmDiscardOption::File => 2,
            ConfirmDiscardOption::Never => 3,
        }
    }
}

#[derive(Debug)]
pub struct GeneralConfig {
    pub always_show_help: BoolConfigEntry,
    pub confirm_quit: BoolConfigEntry,
    pub refresh_on_file_change: BoolConfigEntry,
    pub confirm_discard: ConfirmDiscardOption,
    pub collapsed_sections: Vec<String>,
    pub stash_list_limit: usize,
    pub recent_commits_limit: usize,
    pub log_author_width: usize,
    pub mouse_support: bool,
    pub mouse_scroll_lines: usize,
}

#[derive(Clone, Copy, Debug)]
pub struct StyleConfigEntry {
    pub fg: Option<Color>,
    pub bg: Option<Color>,
    pub mods: Option<Modifier>,
}

#[derive(Clone, Copy, Debug)]
pub struct SymbolStyleConfigEntry {
    pub symbol: char,
    pub fg: Option<Color>,
    pub bg: Option<Color>,
    pub mods: Option<Modifier>,
}

#[derive(Debug)]
pub struct BlameStyleConfig {
    pub line_num: StyleConfigEntry,
    pub code_line: StyleConfigEntry,
}

#[derive(Debug)]
pub struct MenuStyleConfig {
    pub heading: StyleConfigEntry,
    pub key: StyleConfigEntry,
    /// Active argument value display (e.g., "--interactive")
    pub active_arg: StyleConfigEntry,
    /// Inactive argument value display
    pub inactive_arg: StyleConfigEntry,
}

#[derive(Debug)]
pub struct DiffHighlightConfig {
    pub tag_old: StyleConfigEntry,
    pub tag_new: StyleConfigEntry,
    pub unchanged_old: StyleConfigEntry,
    pub unchanged_new: StyleConfigEntry,
    pub changed_old: StyleConfigEntry,
    pub changed_new: StyleConfigEntry,
}

#[derive(Debug)]
pub struct SyntaxHighlightConfig {
    pub enabled: bool,
    pub attribute: StyleConfigEntry,
    pub comment: StyleConfigEntry,
    pub constant_builtin: StyleConfigEntry,
    pub constant: StyleConfigEntry,
    pub constructor: StyleConfigEntry,
    pub embedded: StyleConfigEntry,
    pub function_builtin: StyleConfigEntry,
    pub function: StyleConfigEntry,
    pub keyword: StyleConfigEntry,
    pub number: StyleConfigEntry,
    pub module: StyleConfigEntry,
    pub property: StyleConfigEntry,
    pub operator: StyleConfigEntry,
    pub punctuation_bracket: StyleConfigEntry,
    pub punctuation_delimiter: StyleConfigEntry,
    pub string_special: StyleConfigEntry,
    pub string: StyleConfigEntry,
    pub tag: StyleConfigEntry,
    pub type_regular: StyleConfigEntry,
    pub type_builtin: StyleConfigEntry,
    pub variable_builtin: StyleConfigEntry,
    pub variable_parameter: StyleConfigEntry,
}

#[derive(Debug)]
pub struct PickerStyleConfig {
    pub prompt: StyleConfigEntry,
    pub info: StyleConfigEntry,
    pub selection_line: StyleConfigEntry,
    pub matched: StyleConfigEntry,
}

#[derive(Debug)]
pub struct StyleConfig {
    pub separator: StyleConfigEntry,
    pub info_msg: StyleConfigEntry,
    pub error_msg: StyleConfigEntry,
    pub command: StyleConfigEntry,
    pub menu: MenuStyleConfig,
    pub prompt: StyleConfigEntry,
    pub section_header: StyleConfigEntry,
    pub file_header: StyleConfigEntry,
    pub hunk_header: StyleConfigEntry,
    pub diff_highlight: DiffHighlightConfig,
    pub syntax_highlight: SyntaxHighlightConfig,
    pub picker: PickerStyleConfig,
    pub cursor: SymbolStyleConfigEntry,
    pub selection_bar: SymbolStyleConfigEntry,
    pub mark_bar: SymbolStyleConfigEntry,
    pub selection_line: StyleConfigEntry,
    pub selection_area: StyleConfigEntry,
    pub mark_area: StyleConfigEntry,
    pub hash: StyleConfigEntry,
    pub branch: StyleConfigEntry,
    pub remote: StyleConfigEntry,
    pub tag: StyleConfigEntry,
    pub author: StyleConfigEntry,
    pub age: StyleConfigEntry,
    pub blame: BlameStyleConfig,
}

/// The style an entry describes: its colours, its modifiers added, none removed.
pub open spec fn entry_style(fg: Option<Color>, bg: Option<Color>, mods: Option<Modifier>) -> Style {
    Style {
        fg: fg,
        bg: bg,
        add_modifier: match mods {
            Some(m) => m,
            None => Modifier { bits: 0 },
        },
        sub_modifier: Modifier { bits: 0 },
    }
}

fn entry_to_style(fg: Option<Color>, bg: Option<Color>, mods: Option<Modifier>) -> (s: Style)
    ensures
        s == entry_style(fg, bg, mods),
{
    Style {
        fg,
        bg,
        add_modifier: match mods {
            Some(m) => m,
            None => Modifier::empty(),
        },
        sub_modifier: Modifier::empty(),
    }
}

impl<'a> From<&'a StyleConfigEntry> for Style {
    fn from(val: &'a StyleConfigEntry) -> (s: Style) {
        entry_to_style(val.fg, val.bg, val.mods)
    }
}

impl<'a> vstd::std_specs::convert::FromSpecImpl<&'a StyleConfigEntry> for Style {
    open spec fn obeys_from_spec() -> bool {
        true
    }

    open spec fn from_spec(val: &'a StyleConfigEntry) -> Style {
        entry_style(val.fg, val.bg, val.mods)
    }
}

impl<'a> From<&'a SymbolStyleConfigEntry> for Style {
    fn from(val: &'a SymbolStyleConfigEntry) -> (s: Style) {
        entry_to_style(val.fg, val.bg, val.mods)
    }
}

impl<'a> vstd::std_specs::convert::FromSpecImpl<&'a SymbolStyleConfigEntry> for Style {
    open spec fn obeys_from_spec() -> bool {
        true
    }

    open spec fn from_spec(val: &'a SymbolStyleConfigEntry) -> Style {
        entry_style(val.fg, val.bg, val.mods)
    }
}

} // verus!
