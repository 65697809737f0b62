use liase::config::{config_to_save, from_app_config, token_to_store, RawConfig, TokenEntry};
use liase::settings::{SettingsAction, SettingsForm, SettingsView, SubRow, TokenInput};
use liase::view::Flavor;
use liase::wire::{
    AppConfig, AppError, Command, ErrorKind, Response, Subscription, SubscriptionKind,
};

fn some(s: &str) -> Option<String> {
    Some(s.to_string())
}

fn config() -> AppConfig {
    AppConfig {
        poll_interval_secs: 120,
        subscriptions: vec![
            Subscription { kind: SubscriptionKind::Org, name: "zcash".to_string() },
            Subscription { kind: SubscriptionKind::Repo, name: "schell/mogwai".to_string() },
        ],
        has_token: true,
    }
}

fn loaded() -> SettingsView {
    let mut view = SettingsView::new();
    view.finish_load(Ok(Response::Config(config())));
    view
}

#[test]
fn new_settings_wait_for_the_configuration() {
    let view = SettingsView::new();
    assert_eq!(view.status_alert.text, "Loading configuration...");
    assert_eq!(view.status_alert.flavor, Flavor::Info);
    assert_eq!(view.form.poll_interval.as_deref(), Some("60"));
    assert_eq!(view.start(), Some(Command::GetConfig));
    assert_eq!(loaded().start(), None);
}

#[test]
fn the_form_is_filled_from_the_configuration() {
    let view = loaded();
    assert!(view.loaded);
    assert!(!view.status_alert.is_visible);
    assert!(matches!(view.form.token, TokenInput::InUse));
    assert_eq!(view.form.poll_interval.as_deref(), Some("120"));
    let rows: Vec<(Option<&str>, Option<&str>)> =
        view.form.sub_rows.iter().map(|r| (r.kind.as_deref(), r.name.as_deref())).collect();
    assert_eq!(
        rows,
        vec![(Some("org"), Some("zcash")), (Some("repo"), Some("schell/mogwai"))]
    );
}

#[test]
fn a_failed_load_of_the_configuration_is_reported() {
    let mut view = SettingsView::new();
    view.finish_load(Err(AppError::new(ErrorKind::Config, "gone".to_string())));
    assert_eq!(view.status_alert.text, "Error loading config: gone");
    assert_eq!(view.status_alert.flavor, Flavor::Danger);
    assert!(view.status_alert.is_visible && view.loaded);
    view.finish_load(Ok(Response::Done));
    assert_eq!(
        view.status_alert.text,
        "Error loading config: expected Response::Config, got Ok"
    );
}

fn stored(token: Option<&str>) -> RawConfig {
    from_app_config(&config(), token.map(|t| t.to_string()))
}

/// What a save leaves stored: the token, the interval, and the subscriptions.
fn saved(
    view: &mut SettingsView,
    over: &RawConfig,
    env: Option<&str>,
) -> (Option<String>, u64, Vec<(String, String)>) {
    let r = view.act(SettingsAction::Save).unwrap();
    let c = config_to_save(over, env.map(|e| e.to_string()), &r.config, r.token).github;
    let subs = c.subscriptions.into_iter().map(|s| (s.kind, s.name)).collect();
    (c.token, c.poll_interval_secs, subs)
}

#[test]
fn unchanged_settings_are_saved_as_they_were() {
    let mut view = loaded();
    let subs = vec![
        ("org".to_string(), "zcash".to_string()),
        ("repo".to_string(), "schell/mogwai".to_string()),
    ];
    assert_eq!(saved(&mut view, &stored(Some("ghp")), None), (some("ghp"), 120, subs.clone()));
    assert_eq!(saved(&mut view, &stored(Some("ghp")), Some("env")).0, some("ghp"));
    assert!(view.saving);
    let mut view = SettingsView::new();
    view.finish_load(Ok(Response::Config(AppConfig { has_token: false, ..config() })));
    assert!(matches!(&view.form.token, TokenInput::Value(Some(v)) if v.is_empty()));
    assert_eq!(saved(&mut view, &stored(None), None), (None, 120, subs));
}

#[test]
fn the_token_in_use_is_stored() {
    let mut view = loaded();
    assert_eq!(saved(&mut view, &stored(None), Some("env")).0, some("env"));
    assert_eq!(saved(&mut view, &stored(Some("")), Some("env")).0, None);
}

#[test]
fn saves_ask_for_what_the_form_holds() {
    let request = loaded().act(SettingsAction::Save).unwrap();
    assert!(matches!(request.token, TokenEntry::InUse));
    assert_eq!(request.config, config());
}

#[test]
fn edited_tokens_are_stored_as_entered() {
    let mut view = loaded();
    view.form.token = TokenInput::Value(some("new"));
    assert_eq!(saved(&mut view, &stored(Some("old")), Some("env")).0, some("new"));
    view.form.token = TokenInput::Value(some(""));
    assert_eq!(saved(&mut view, &stored(Some("old")), Some("env")).0, None);
    assert!(!view.act(SettingsAction::Save).unwrap().config.has_token);
    assert_eq!(token_to_store(TokenEntry::Entered(some("a")), some("b")), some("a"));
    assert_eq!(token_to_store(TokenEntry::Entered(None), some("b")), None);
    assert_eq!(token_to_store(TokenEntry::InUse, some("b")), some("b"));
    assert_eq!(token_to_store(TokenEntry::InUse, None), None);
}

#[test]
fn settings_that_were_not_loaded_hold_no_token() {
    let mut view = SettingsView::new();
    assert_eq!(saved(&mut view, &stored(Some("old")), None), (None, 60, vec![]));
}

#[test]
fn saves_end() {
    let mut view = loaded();
    view.act(SettingsAction::Save);
    view.finish_save(Ok(Response::Done));
    assert!(!view.saving);
    assert_eq!(view.status_alert.text, "Settings saved.");
    assert_eq!(view.status_alert.flavor, Flavor::Success);
    assert!(view.status_alert.is_visible);
    view.finish_save(Err(AppError::new(ErrorKind::Config, "full".to_string())));
    assert_eq!(view.status_alert.text, "Failed to save: full");
    assert_eq!(view.status_alert.flavor, Flavor::Danger);
    view.finish_save(Ok(Response::Event(None)));
    assert_eq!(
        view.status_alert.text,
        "Failed to save: expected Response::Ok, got Event(None)"
    );
    assert_eq!(view.form.sub_rows.len(), 2);
}

#[test]
fn rows_are_added_and_removed() {
    let mut view = loaded();
    assert!(view.act(SettingsAction::AddSub).is_none());
    assert_eq!(view.form.sub_rows.len(), 3);
    assert_eq!(view.form.sub_rows[2].kind.as_deref(), Some("org"));
    assert_eq!(view.form.sub_rows[2].name.as_deref(), Some(""));
    assert_eq!(view.act(SettingsAction::Save).unwrap().config.subscriptions.len(), 2);
    view.act(SettingsAction::RemoveSub(9));
    assert_eq!(view.form.sub_rows.len(), 3);
    view.act(SettingsAction::RemoveSub(2));
    view.act(SettingsAction::RemoveSub(0));
    assert_eq!(view.form.sub_rows.len(), 1);
    assert_eq!(view.form.sub_rows[0].name.as_deref(), Some("schell/mogwai"));
}

fn read(token: Option<&str>, interval: Option<&str>) -> (Option<String>, u64, bool) {
    let form = SettingsForm {
        token: TokenInput::Value(token.map(|t| t.to_string())),
        poll_interval: interval.map(|i| i.to_string()),
        sub_rows: Vec::new(),
    };
    let r = form.read_config();
    (token_to_store(r.token, some("in use")), r.config.poll_interval_secs, r.config.has_token)
}

#[test]
fn tokens_and_intervals_are_read() {
    assert_eq!(read(Some("ghp"), Some("15")), (some("ghp"), 15, true));
    assert_eq!(read(Some(""), Some("")), (None, 60, false));
    assert_eq!(read(None, None), (None, 60, false));
    assert_eq!(read(None, Some("soon")), (None, 60, false));
    assert_eq!(read(None, Some("-5")), (None, 60, false));
    assert_eq!(read(None, Some("+5")), (None, 5, false));
}

#[test]
fn subscription_rows_are_read() {
    let row = |kind: Option<&str>, name: Option<&str>| {
        SubRow { kind: kind.map(|k| k.to_string()), name: name.map(|n| n.to_string()) }
            .read_subscription()
    };
    let sub = |kind, name: &str| Some(Subscription { kind, name: name.to_string() });
    assert_eq!(row(Some("org"), Some("z")), sub(SubscriptionKind::Org, "z"));
    assert_eq!(row(Some("repo"), Some("a/b")), sub(SubscriptionKind::Repo, "a/b"));
    assert_eq!(row(None, Some("a/b")), sub(SubscriptionKind::Repo, "a/b"));
    assert_eq!(row(Some("org"), Some("")), None);
    assert_eq!(row(Some("org"), None), None);
    let made = SubRow::new(SubscriptionKind::Repo, "n");
    assert_eq!((made.kind.as_deref(), made.name.as_deref()), (Some("repo"), Some("n")));
}
