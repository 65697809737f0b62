use liase::backend::{
    announcement, answer_done, answer_event, answer_events, handle_command, CommandStep,
    StoreRequest,
};
use liase::bridge::{settle, SendOutcome};
use liase::config::RawConfig;
use liase::shell::{App, AppStepResult, TabContent};
use liase::store::StoreError;
use liase::wire::{AppError, Command, ErrorKind, EventFilter, GhEvent, Response, ServerEvent};

fn step(cmd: Command, has_poller: bool) -> CommandStep {
    handle_command(cmd, &RawConfig::default(), Some("t".to_string()), has_poller)
}

fn broken() -> StoreError {
    StoreError("broken".to_string())
}

#[test]
fn commands_for_the_store_are_passed_on() {
    let filter = || EventFilter { repo: Some("a/b".to_string()), unread_only: true, limit: Some(3) };
    match step(Command::GetEvents(filter()), false) {
        CommandStep::Ask(StoreRequest::GetEvents(f)) => assert_eq!(f, filter()),
        other => panic!("{other:?}"),
    }
    match step(Command::GetEvent { id: "1".to_string() }, false) {
        CommandStep::Ask(StoreRequest::GetEvent { id }) => assert_eq!(id, "1"),
        other => panic!("{other:?}"),
    }
    match step(Command::MarkRead { id: "1".to_string() }, false) {
        CommandStep::Ask(StoreRequest::MarkRead { id }) => assert_eq!(id, "1"),
        other => panic!("{other:?}"),
    }
    match step(Command::MarkAllRead { repo: Some("a/b".to_string()) }, false) {
        CommandStep::Ask(StoreRequest::MarkAllRead { repo }) => {
            assert_eq!(repo.as_deref(), Some("a/b"))
        }
        other => panic!("{other:?}"),
    }
}

#[test]
fn config_is_answered_at_once() {
    match step(Command::GetConfig, false) {
        CommandStep::Answer(Response::Config(c)) => {
            assert!(c.has_token);
            assert_eq!(c.poll_interval_secs, 60);
        }
        other => panic!("{other:?}"),
    }
}

#[test]
fn poll_now_needs_a_poller() {
    assert!(matches!(step(Command::PollNow, true), CommandStep::Wake(Response::Done)));
    match step(Command::PollNow, false) {
        CommandStep::Refuse(e) => assert_eq!(
            e,
            AppError::new(ErrorKind::Config, "No GitHub token configured".to_string())
        ),
        other => panic!("{other:?}"),
    }
}

#[test]
fn answers_of_the_store() {
    let event = GhEvent { id: "1".to_string(), ..GhEvent::default() };
    let failed = || Err(AppError::new(ErrorKind::Database, "broken".to_string()));
    assert_eq!(answer_events(Ok(vec![event.clone()])), Ok(Response::Events(vec![event.clone()])));
    assert_eq!(answer_events(Err(broken())), failed());
    assert_eq!(answer_event(Ok(Some(event.clone()))), Ok(Response::Event(Some(event))));
    assert_eq!(answer_event(Ok(None)), Ok(Response::Event(None)));
    assert_eq!(answer_event(Err(broken())), failed());
    assert_eq!(answer_done(Ok(())), Ok(Response::Done));
    assert_eq!(answer_done(Err(broken())), failed());
}

#[test]
fn only_new_events_are_announced() {
    assert_eq!(announcement(&Vec::new()), None);
    assert_eq!(announcement(&vec![Ok(false), Err(broken())]), None);
    assert_eq!(
        announcement(&vec![Ok(true), Ok(false), Err(broken()), Ok(true)]),
        Some(ServerEvent::NewEvents { count: 2 })
    );
}

#[test]
fn outcomes_are_settled() {
    assert_eq!(settle(SendOutcome::Answered(Some(Response::Done))), Ok(Response::Done));
    let e = AppError::new(ErrorKind::Database, "m".to_string());
    assert_eq!(
        settle(SendOutcome::Refused(Some(AppError::new(ErrorKind::Database, "m".to_string())))),
        Err(e)
    );
    let unreadable =
        || Err(AppError::new(ErrorKind::Serialization, "Could not deserialize".to_string()));
    assert_eq!(settle(SendOutcome::Answered(None)), unreadable());
    assert_eq!(settle(SendOutcome::Refused(None)), unreadable());
    assert_eq!(
        settle(SendOutcome::Unserializable("r".to_string())),
        Err(AppError::new(ErrorKind::Serialization, "could not serialize command: r".to_string()))
    );
}

#[test]
fn tabs_are_selected_by_clicks() {
    let mut app = App::default();
    assert_eq!(app.content(), Some(TabContent::Timeline));
    app.step(AppStepResult::ContentStep);
    assert_eq!(app.content(), Some(TabContent::Timeline));
    app.step(AppStepResult::TabClicked(1));
    app.step(AppStepResult::ContentStep);
    assert_eq!(app.content(), Some(TabContent::Settings));
    app.step(AppStepResult::TabClicked(0));
    assert_eq!(app.active_tab, 0);
    app.select_tab(2);
    assert_eq!(app.content(), None);
}
