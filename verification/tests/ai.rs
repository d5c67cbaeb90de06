use gitu::ai::{
    api_message, authorization, command_message, command_request, commit_message_request, status_error,
    truncate_diff, AiError, AiRequest,
};
use gitu::config::{AiBackend, AiConfig};

fn s(args: &[&str]) -> Vec<String> {
    args.iter().map(|a| a.to_string()).collect()
}

#[test]
fn no_truncation_when_within_limit() {
    assert_eq!(truncate_diff("hello", 16000), "hello");
}

#[test]
fn zero_disables_truncation() {
    assert_eq!(truncate_diff("hello", 0), "hello");
}

#[test]
fn truncates_and_marks() {
    let out = truncate_diff("abcdefgh", 4);
    assert!(out.starts_with("abcd"));
    assert!(out.contains("[diff truncated]"));
}

#[test]
fn respects_char_boundary() {
    // "é" is two bytes; cutting at 3 must not split it.
    let out = truncate_diff("aééé", 3);
    assert!(out.starts_with("aé"));
    assert!(out.contains("[diff truncated]"));
}

#[test]
fn command_empty_is_an_error() {
    assert!(command_request(&Vec::new(), "p", "d").is_err());
}

#[test]
fn truncation_keeps_exactly_the_fitting_prefix() {
    assert_eq!(truncate_diff("abcdefgh", 4), "abcd\n\n[diff truncated]");
    assert_eq!(truncate_diff("aééé", 3), "aé\n\n[diff truncated]");
    assert_eq!(truncate_diff("aééé", 4), "aé\n\n[diff truncated]");
    assert_eq!(truncate_diff("éé", 1), "\n\n[diff truncated]");
    assert_eq!(truncate_diff("abcd", 4), "abcd");
}

#[test]
fn command_request_substitutes_prompt_and_pipes_diff() {
    let req = command_request(&s(&["sh", "-c", "printf %s \"$1\"", "sh", "{prompt}"]), "SYSTEM PROMPT", "the diff")
        .unwrap();
    assert_eq!(req.program, "sh");
    assert_eq!(req.args, s(&["-c", "printf %s \"$1\"", "sh", "SYSTEM PROMPT"]));
    assert_eq!(req.stdin, "the diff");
}

#[test]
fn command_request_replaces_every_placeholder() {
    let req = command_request(&s(&["x", "{prompt}-{prompt}"]), "P", "d").unwrap();
    assert_eq!(req.args, s(&["P-P"]));
}

#[test]
fn api_message_reads_trimmed_content() {
    let body = r#"{"choices":[{"message":{"content":"  Fix the thing \n"}}]}"#;
    assert_eq!(api_message(body).unwrap(), "Fix the thing");
}

#[test]
fn api_message_errors() {
    assert!(matches!(api_message("not json"), Err(AiError::InvalidJson { .. })));
    assert!(matches!(api_message(r#"{"choices":[]}"#), Err(AiError::NoMessage)));
    assert!(matches!(
        api_message(r#"{"choices":[{"message":{"content":"   "}}]}"#),
        Err(AiError::EmptyMessage)
    ));
}

#[test]
fn commit_message_request_truncates_for_the_api() {
    let mut config = AiConfig::default();
    config.max_diff_bytes = 4;
    config.base_url = "https://example.com/v1/".to_string();
    match commit_message_request(&config, "prompt", "abcdefgh").unwrap() {
        AiRequest::Api(a) => {
            assert_eq!(a.url, "https://example.com/v1/chat/completions");
            assert_eq!(a.user_content, "abcd\n\n[diff truncated]");
            assert_eq!(a.system_prompt, "prompt");
            assert_eq!(a.model, "gpt-4o-mini");
        }
        _ => panic!("expected an API request"),
    }
}

#[test]
fn commit_message_request_with_empty_command_fails() {
    let mut config = AiConfig::default();
    config.backend = AiBackend::Command;
    assert!(matches!(commit_message_request(&config, "p", "d"), Err(AiError::EmptyCommand)));
}

#[test]
fn command_message_outcomes() {
    assert_eq!(command_message("msggen", true, "0", "  feat: x \n", "").unwrap(), "feat: x");
    match command_message("msggen", true, "0", " \n ", "") {
        Err(AiError::NoOutput { program }) => assert_eq!(program, "msggen"),
        _ => panic!("expected NoOutput"),
    }
    match command_message("false", false, "exit status: 1", "", " boom \n") {
        Err(AiError::Exited { program, status, stderr }) => {
            assert_eq!(program, "false");
            assert_eq!(status, "exit status: 1");
            assert_eq!(stderr, "boom");
        }
        _ => panic!("expected Exited"),
    }
}

#[test]
fn authorization_header() {
    assert_eq!(authorization("", None).unwrap(), None);
    assert_eq!(authorization("KEY", Some("abc".to_string())).unwrap(), Some("Bearer abc".to_string()));
    match authorization("KEY", None) {
        Err(AiError::MissingApiKey { env }) => assert_eq!(env, "KEY"),
        _ => panic!("expected MissingApiKey"),
    }
}

#[test]
fn status_error_trims_body() {
    match status_error(429, Some(" slow down \n".to_string())) {
        AiError::ApiStatus { code, detail } => {
            assert_eq!(code, 429);
            assert_eq!(detail, "slow down");
        }
        _ => panic!("expected ApiStatus"),
    }
    match status_error(500, None) {
        AiError::ApiStatus { detail, .. } => assert_eq!(detail, "<unreadable body>"),
        _ => panic!("expected ApiStatus"),
    }
}

#[test]
fn error_messages() {
    let p = || "prog".to_string();
    let d = || "oops".to_string();
    assert_eq!(AiError::EmptyCommand.message(), "[ai].command is empty");
    assert_eq!(AiError::SpawnFailed { program: p(), detail: d() }.message(), "failed to run prog: oops");
    assert_eq!(
        AiError::WriteFailed { program: p(), detail: d() }.message(),
        "failed to write diff to prog: oops"
    );
    assert_eq!(AiError::WaitFailed { program: p(), detail: d() }.message(), "failed to wait for prog: oops");
    assert_eq!(
        AiError::Exited { program: p(), status: "exit status: 2".to_string(), stderr: d() }.message(),
        "prog exited with exit status: 2: oops"
    );
    assert_eq!(AiError::NoOutput { program: p() }.message(), "prog produced no output");
    assert_eq!(
        AiError::MissingApiKey { env: "OPENAI_API_KEY".to_string() }.message(),
        "environment variable OPENAI_API_KEY is not set"
    );
    assert_eq!(AiError::ApiStatus { code: 401, detail: d() }.message(), "API returned status 401: oops");
    assert_eq!(AiError::RequestFailed { detail: d() }.message(), "request failed: oops");
    assert_eq!(
        AiError::InvalidJson { detail: d() }.message(),
        "could not parse response as JSON: oops"
    );
    assert_eq!(AiError::NoMessage.message(), "response did not contain a message");
    assert_eq!(AiError::EmptyMessage.message(), "model returned an empty message");
}

#[test]
fn command_pipes_diff_to_stdin() {
    // `cat` echoes stdin (the diff) back to stdout.
    let req = command_request(&s(&["cat"]), "unused prompt", "the diff").unwrap();
    assert_eq!(req.program, "cat");
    assert!(req.args.is_empty());
    assert_eq!(req.stdin, "the diff");
    // What `cat` prints back is the message.
    assert_eq!(command_message(&req.program, true, "exit status: 0", &req.stdin, "").unwrap(), "the diff");
}

#[test]
fn command_substitutes_prompt_placeholder() {
    // `sh -c 'printf %s "$1"' sh <arg>` prints the argument, where {prompt}
    // has been replaced with the system prompt.
    let req = command_request(
        &s(&["sh", "-c", "printf %s \"$1\"", "sh", "{prompt}"]),
        "SYSTEM PROMPT",
        "ignored diff",
    )
    .unwrap();
    assert_eq!(req.args.last().unwrap(), "SYSTEM PROMPT");
    assert_eq!(command_message(&req.program, true, "exit status: 0", "SYSTEM PROMPT", "").unwrap(), "SYSTEM PROMPT");
}

#[test]
fn command_nonzero_exit_is_an_error() {
    let req = command_request(&s(&["false"]), "p", "d").unwrap();
    assert!(command_message(&req.program, false, "exit status: 1", "", "").is_err());
}

#[test]
fn invalid_json_reports_the_parse_error() {
    let expected = serde_json::from_str::<serde_json::Value>("not json").unwrap_err().to_string();
    match api_message("not json") {
        Err(AiError::InvalidJson { detail }) => assert_eq!(detail, expected),
        _ => panic!("expected InvalidJson"),
    }
}
