use liase::timeline::{
    matches_search, presentable, FilterMode, TimelineAction, TimelineEffect, TimelineView,
};
use liase::view::Flavor;
use liase::wire::{AppError, Command, ErrorKind, EventFilter, GhEvent, Response};

fn event(id: &str, kind: u32, number: u64, timestamp: &str) -> GhEvent {
    GhEvent {
        id: id.to_string(),
        kind,
        repo: "Zcash/Repo".to_string(),
        number,
        title: format!("Title of {id}"),
        author: "Alice".to_string(),
        url: format!("u:{id}"),
        timestamp: timestamp.to_string(),
        ..GhEvent::default()
    }
}

fn sample() -> Vec<GhEvent> {
    vec![
        event("c1", 2, 1, "05"),
        event("c2", 2, 1, "04"),
        GhEvent { read: true, ..event("p2", 1, 2, "03") },
        event("i1", 0, 1, "02"),
    ]
}

fn loaded() -> TimelineView {
    let mut view = TimelineView::new();
    assert!(view.try_finish_load(Ok(Response::Events(sample()))));
    view
}

fn parents(view: &TimelineView) -> Vec<&str> {
    view.group_rows.iter().map(|r| r.parent_data.id.as_str()).collect()
}

fn act(view: &mut TimelineView, action: TimelineAction) -> Vec<String> {
    view.try_act(action)
        .unwrap()
        .into_iter()
        .map(|e| match e {
            TimelineEffect::Subscribe => "subscribe".to_string(),
            TimelineEffect::Send(Command::MarkRead { id }) => format!("read {id}"),
            TimelineEffect::Send(c) => format!("{c:?}"),
            TimelineEffect::Wait(ms) => format!("wait {ms}"),
            TimelineEffect::Open(url) => format!("open {url}"),
            TimelineEffect::Load => "load".to_string(),
            TimelineEffect::EndRefresh => "end".to_string(),
        })
        .collect()
}

#[test]
fn a_new_timeline_waits_for_events() {
    let view = TimelineView::new();
    assert_eq!(view.status_alert.text, "Loading events...");
    assert_eq!(view.status_alert.flavor, Flavor::Info);
    assert_eq!(view.filter_all_flavor, Flavor::Primary);
    assert_eq!(view.filter_unread_flavor, Flavor::Secondary);
    assert!(!view.loaded && !view.refreshing);
    let start = view.start();
    assert_eq!(start.len(), 2);
    assert!(matches!(start[0], TimelineEffect::Subscribe));
    assert!(matches!(start[1], TimelineEffect::Load));
    assert!(loaded().start().is_empty());
}

#[test]
fn loads_ask_for_the_mode() {
    let mut view = TimelineView::new();
    let request = |unread_only| {
        Command::GetEvents(EventFilter { repo: None, unread_only, limit: Some(200) })
    };
    assert_eq!(view.load_command(), request(false));
    act(&mut view, TimelineAction::FilterUnread);
    assert_eq!(view.load_command(), request(true));
}

#[test]
fn loaded_events_are_grouped() {
    let view = loaded();
    assert!(view.loaded);
    assert!(!view.status_alert.is_visible);
    assert_eq!(parents(&view), vec!["i1", "p2"]);
    let comments: Vec<&str> =
        view.group_rows[0].comment_rows.iter().map(|c| c.event_data.id.as_str()).collect();
    assert_eq!(comments, vec!["c2", "c1"]);
    assert_eq!(view.loaded_events.len(), 4);
}

#[test]
fn failed_loads_are_reported() {
    let mut view = loaded();
    assert!(view.try_finish_load(Err(AppError::new(ErrorKind::Database, "locked".to_string()))));
    assert_eq!(view.status_alert.text, "Error loading events: locked");
    assert_eq!(view.status_alert.flavor, Flavor::Danger);
    assert!(view.status_alert.is_visible);
    assert_eq!(parents(&view), vec!["i1", "p2"]);
    assert!(view.try_finish_load(Ok(Response::Done)));
    assert_eq!(
        view.status_alert.text,
        "Error loading events: expected Response::Events, got Ok"
    );
    let mut view = TimelineView::new();
    view.finish_load(Ok(Response::Event(None)));
    assert!(!view.loaded);
}

#[test]
fn empty_loads_say_why() {
    let mut view = TimelineView::new();
    view.finish_load(Ok(Response::Events(Vec::new())));
    assert_eq!(view.status_alert.text, "No events yet. Configure subscriptions in Settings.");
    assert!(view.status_alert.is_visible);
    act(&mut view, TimelineAction::FilterUnread);
    view.finish_load(Ok(Response::Events(vec![GhEvent { read: true, ..event("i", 0, 1, "01") }])));
    assert_eq!(view.status_alert.text, "No unread events.");
    assert!(view.group_rows.is_empty());
}

#[test]
fn unread_mode_shows_unread_events() {
    let mut view = loaded();
    assert_eq!(act(&mut view, TimelineAction::FilterUnread), vec!["load"]);
    assert_eq!(view.filter_mode, FilterMode::Unread);
    assert_eq!(view.filter_all_flavor, Flavor::Secondary);
    assert_eq!(view.filter_unread_flavor, Flavor::Primary);
    assert!(act(&mut view, TimelineAction::FilterUnread).is_empty());
    view.finish_load(Ok(Response::Events(sample())));
    assert_eq!(parents(&view), vec!["i1"]);
    assert_eq!(act(&mut view, TimelineAction::FilterAll), vec!["load"]);
    assert_eq!(view.filter_all_flavor, Flavor::Primary);
    assert!(act(&mut view, TimelineAction::FilterAll).is_empty());
}

#[test]
fn searches_ignore_case() {
    let mut view = loaded();
    let mut search = |text: &str| {
        assert!(act(&mut view, TimelineAction::SearchTextChanged(text.to_string())).is_empty());
        (parents(&view).join(","), view.status_alert.is_visible)
    };
    assert_eq!(search("TITLE OF P2"), ("p2".to_string(), false));
    assert_eq!(search("alice zcash/repo #2"), ("p2".to_string(), false));
    assert_eq!(search("#1"), ("i1".to_string(), false));
    assert_eq!(search("\u{c9}"), ("".to_string(), true));
    assert_eq!(search(""), ("i1,p2".to_string(), false));
    act(&mut view, TimelineAction::SearchTextChanged("nowhere".to_string()));
    assert_eq!(view.status_alert.text, "No events match your search.");
    assert_eq!(view.status_alert.flavor, Flavor::Info);
    act(&mut view, TimelineAction::SearchTextChanged("\u{130}".to_string()));
    assert_eq!(view.status_alert.text, "No events match your search.");
    view.finish_load(Ok(Response::Events(sample())));
    assert_eq!(view.search_text, "");
    assert_eq!(parents(&view), vec!["i1", "p2"]);
}

#[test]
fn searched_text_is_made_of_parts() {
    assert!(matches_search("", "", "", "", 0));
    assert!(matches_search("t a r #5", "t", "a", "r", 5));
    assert!(!matches_search("T", "t", "a", "r", 5));
    assert!(!matches_search("##", "t", "a", "r", 5));
}

#[test]
fn refreshing_polls_waits_and_loads() {
    let mut view = loaded();
    assert_eq!(act(&mut view, TimelineAction::Refresh), vec!["PollNow", "wait 500", "load", "end"]);
    assert!(view.refreshing);
    view.end_refresh();
    assert!(!view.refreshing);
}

#[test]
fn marking_all_and_pushed_events_load() {
    let mut view = loaded();
    assert_eq!(
        act(&mut view, TimelineAction::MarkAllRead),
        vec!["MarkAllRead { repo: None }", "load"]
    );
    assert_eq!(act(&mut view, TimelineAction::NewServerEvents), vec!["load"]);
}

#[test]
fn parents_are_opened_and_marked() {
    let mut view = loaded();
    assert_eq!(act(&mut view, TimelineAction::ParentOpenClicked(1)), vec!["open u:p2", "load"]);
    assert_eq!(
        act(&mut view, TimelineAction::ParentMarkReadClicked(0)),
        vec!["read i1", "read c2", "read c1", "load"]
    );
    assert_eq!(act(&mut view, TimelineAction::ParentMarkReadClicked(1)), vec!["read p2", "load"]);
    assert!(act(&mut view, TimelineAction::ParentOpenClicked(2)).is_empty());
    assert!(act(&mut view, TimelineAction::ParentMarkReadClicked(2)).is_empty());
}

#[test]
fn comments_are_marked_and_opened() {
    let mut view = TimelineView::new();
    view.finish_load(Ok(Response::Events(vec![
        event("i", 0, 1, "01"),
        event("c", 2, 1, "02"),
        GhEvent { read: true, ..event("d", 2, 1, "03") },
    ])));
    assert_eq!(act(&mut view, TimelineAction::CommentClicked(0, 0)), vec!["read c", "open u:c", "load"]);
    assert_eq!(act(&mut view, TimelineAction::CommentClicked(0, 1)), vec!["open u:d", "load"]);
    assert!(act(&mut view, TimelineAction::CommentClicked(0, 2)).is_empty());
    assert!(act(&mut view, TimelineAction::CommentClicked(1, 0)).is_empty());
}

#[test]
fn toggling_changes_one_row() {
    let mut view = loaded();
    assert!(act(&mut view, TimelineAction::ToggleComments(0)).is_empty());
    assert!(view.group_rows[0].expanded);
    assert!(!view.group_rows[1].expanded);
    act(&mut view, TimelineAction::ToggleComments(0));
    assert!(!view.group_rows[0].expanded);
    act(&mut view, TimelineAction::ToggleComments(9));
}

#[test]
fn clicks_are_those_on_rows_that_are_there() {
    let view = loaded();
    let targets: Vec<String> = view.click_targets().iter().map(|t| format!("{t:?}")).collect();
    assert_eq!(
        targets,
        vec![
            "ParentOpenClicked(0)",
            "ParentMarkReadClicked(0)",
            "ToggleComments(0)",
            "CommentClicked(0, 0)",
            "CommentClicked(0, 1)",
            "ParentOpenClicked(1)",
            "ParentMarkReadClicked(1)",
        ]
    );
    assert!(TimelineView::new().click_targets().is_empty());
}

#[test]
fn unshowable_events_leave_the_view_alone() {
    let body = format!("{}\u{e9}\u{e9}", "z".repeat(119));
    let odd = GhEvent { body, title: "odd".to_string(), ..event("o", 0, 3, "09") };
    let mut view = loaded();
    assert!(!view.try_finish_load(Ok(Response::Events(vec![odd.clone()]))));
    assert_eq!(parents(&view), vec!["i1", "p2"]);
    let events = vec![odd, event("i", 0, 1, "01")];
    assert!(!presentable(&events, FilterMode::All, ""));
    assert!(presentable(&events, FilterMode::All, "title of i"));
    view.loaded_events = events;
    assert!(view.try_act(TimelineAction::SearchTextChanged("odd".to_string())).is_none());
    assert_eq!(view.search_text, "");
}
