use gitu::config::{owner_repo_from_url, AiConfig, RepoAiConfig, RepoAiEntry};

fn entry(key: &str, prompt: &str) -> RepoAiEntry {
    RepoAiEntry { key: key.to_string(), config: RepoAiConfig { prompt_template: Some(prompt.to_string()) } }
}

#[test]
fn ai_prompt_per_repo_override() {
    let mut config = AiConfig::default();
    config.prompt_template = "global".to_string();
    config.repo = vec![entry("altsem/gitu", "owner-repo-specific"), entry("gitu", "name-specific")];

    // owner/repo is preferred over the base name.
    assert_eq!(config.prompt_for(&["altsem/gitu", "gitu"]), "owner-repo-specific");
    // Falls through to the base name when owner/repo is unlisted.
    assert_eq!(config.prompt_for(&["other/gitu", "gitu"]), "name-specific");
    // Unlisted repo falls back to the global template.
    assert_eq!(config.prompt_for(&["x/y", "z"]), "global");
}

#[test]
fn ai_prompt_empty_override_falls_back() {
    let mut config = AiConfig::default();
    config.prompt_template = "global".to_string();
    config.repo = vec![entry("altsem/gitu", "")];

    // An empty override is skipped rather than sending an empty prompt.
    assert_eq!(config.prompt_for(&["altsem/gitu", "gitu"]), "global");
}

#[test]
fn parses_owner_repo_from_remote_urls() {
    let cases = [
        ("https://github.com/altsem/gitu.git", "altsem/gitu"),
        ("https://github.com/altsem/gitu", "altsem/gitu"),
        ("git@github.com:altsem/gitu.git", "altsem/gitu"),
        ("ssh://git@github.com/altsem/gitu.git", "altsem/gitu"),
        ("https://github.com:443/altsem/gitu.git", "altsem/gitu"),
        ("https://gitlab.com/group/sub/proj.git", "sub/proj"),
    ];
    for (url, expected) in cases {
        assert_eq!(owner_repo_from_url(url).as_deref(), Some(expected), "{url}");
    }
}

#[test]
fn owner_repo_needs_two_segments() {
    assert_eq!(owner_repo_from_url("https://github.com/gitu"), None);
    assert_eq!(owner_repo_from_url("gitu"), None);
    assert_eq!(owner_repo_from_url("  https://github.com/altsem/gitu.git/  ").as_deref(), Some("altsem/gitu"));
}

#[test]
fn prompt_without_overrides_is_global() {
    let mut config = AiConfig::default();
    config.prompt_template = "global".to_string();
    config.repo = vec![RepoAiEntry { key: "gitu".to_string(), config: RepoAiConfig { prompt_template: None } }];
    assert_eq!(config.prompt_for(&["gitu"]), "global");
    assert_eq!(config.prompt_for(&[]), "global");
}

#[test]
fn ai_defaults() {
    let config = AiConfig::default();
    assert!(!config.enabled);
    assert_eq!(config.base_url, "https://api.openai.com/v1");
    assert_eq!(config.api_key_env, "OPENAI_API_KEY");
    assert_eq!(config.model, "gpt-4o-mini");
    assert_eq!(config.max_diff_bytes, 16000);
    assert!(config.command.is_empty());
}
