use liase::config::{
    default_poll_interval, from_app_config, load_config, resolve_token, to_app_config, ConfigFile,
    ConfigRead, GitHubConfig, RawConfig, RawSubscription,
};
use liase::wire::SubscriptionKind;

fn raw(kind: &str, name: &str) -> RawSubscription {
    RawSubscription { kind: kind.to_string(), name: name.to_string() }
}

fn pairs(config: &RawConfig) -> Vec<(String, String)> {
    config.github.subscriptions.iter().map(|s| (s.kind.clone(), s.name.clone())).collect()
}

fn sample(token: Option<&str>) -> RawConfig {
    RawConfig {
        github: GitHubConfig {
            token: token.map(|t| t.to_string()),
            poll_interval_secs: 90,
            subscriptions: vec![raw("org", "zcash"), raw("repo", "schell/mogwai"), raw("?", "x")],
        },
    }
}

#[test]
fn default_interval_is_a_minute() {
    assert_eq!(default_poll_interval(), 60);
    let config = RawConfig::default();
    assert_eq!(config.github.poll_interval_secs, 60);
    assert_eq!(config.github.token, None);
    assert!(config.github.subscriptions.is_empty());
}

#[test]
fn unusable_config_files_give_defaults() {
    for read in [ConfigRead::Missing, ConfigRead::Unreadable, ConfigRead::Malformed] {
        let config = load_config(read);
        assert_eq!(config.github.poll_interval_secs, 60);
        assert_eq!(config.github.token, None);
        assert!(config.github.subscriptions.is_empty());
    }
}

#[test]
fn config_file_entries_may_be_left_out() {
    let config = load_config(ConfigRead::Parsed(ConfigFile {
        token: Some("t".to_string()),
        poll_interval_secs: None,
        subscriptions: None,
    }));
    assert_eq!(config.github.token.as_deref(), Some("t"));
    assert_eq!(config.github.poll_interval_secs, 60);
    assert!(config.github.subscriptions.is_empty());

    let config = load_config(ConfigRead::Parsed(ConfigFile {
        token: None,
        poll_interval_secs: Some(5),
        subscriptions: Some(vec![raw("org", "zcash")]),
    }));
    assert_eq!(config.github.token, None);
    assert_eq!(config.github.poll_interval_secs, 5);
    assert_eq!(pairs(&config), vec![("org".to_string(), "zcash".to_string())]);
}

#[test]
fn config_token_wins_over_the_environment() {
    let env = || Some("env".to_string());
    assert_eq!(resolve_token(&sample(Some("file")), env()), Some("file".to_string()));
    assert_eq!(resolve_token(&sample(Some("")), env()), Some("".to_string()));
    assert_eq!(resolve_token(&sample(None), env()), Some("env".to_string()));
    assert_eq!(resolve_token(&sample(None), None), None);
}

#[test]
fn app_config_shows_whether_there_is_a_token() {
    assert!(to_app_config(&sample(Some("file")), None).has_token);
    assert!(to_app_config(&sample(None), Some("env".to_string())).has_token);
    assert!(!to_app_config(&sample(None), None).has_token);
    assert_eq!(
        to_app_config(&sample(Some("one")), None),
        to_app_config(&sample(Some("other")), None)
    );
}

#[test]
fn unknown_kinds_are_shown_as_repos() {
    let shown = to_app_config(&sample(None), None);
    assert_eq!(shown.poll_interval_secs, 90);
    let kinds: Vec<SubscriptionKind> = shown.subscriptions.iter().map(|s| s.kind).collect();
    assert_eq!(
        kinds,
        vec![SubscriptionKind::Org, SubscriptionKind::Repo, SubscriptionKind::Repo]
    );
}

#[test]
fn shown_config_is_stored_and_shown_again() {
    let shown = to_app_config(&sample(Some("t")), None);
    let stored = from_app_config(&shown, Some("t".to_string()));
    assert_eq!(stored.github.token.as_deref(), Some("t"));
    assert_eq!(stored.github.poll_interval_secs, 90);
    assert_eq!(
        pairs(&stored),
        vec![
            ("org".to_string(), "zcash".to_string()),
            ("repo".to_string(), "schell/mogwai".to_string()),
            ("repo".to_string(), "x".to_string()),
        ]
    );
    assert_eq!(to_app_config(&stored, None), shown);
}
