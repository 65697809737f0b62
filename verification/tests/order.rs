use liase::groups::{group_events, EventGroup};
use liase::order::{insert_text, sort_by_time};
use liase::rows::{showable, CommentRow, EventGroupRow};
use liase::view::Flavor;
use liase::wire::GhEvent;

fn event(id: &str, kind: u32, number: u64, timestamp: &str) -> GhEvent {
    GhEvent {
        id: id.to_string(),
        kind,
        repo: "o/r".to_string(),
        number,
        timestamp: timestamp.to_string(),
        ..GhEvent::default()
    }
}

fn ids(events: &[GhEvent]) -> Vec<&str> {
    events.iter().map(|e| e.id.as_str()).collect()
}

/// Groups in short: the parent, the comments and the latest timestamp of each.
fn short(groups: &[EventGroup]) -> Vec<(&str, Vec<&str>, &str)> {
    groups
        .iter()
        .map(|g| (g.parent.id.as_str(), ids(&g.comments), g.latest_timestamp.as_str()))
        .collect()
}

#[test]
fn texts_are_kept_in_order_and_once() {
    let mut set: Vec<String> = Vec::new();
    for s in ["b", "a", "c", "b", "a", ""] {
        insert_text(&mut set, s.to_string());
    }
    assert_eq!(set, vec!["", "a", "b", "c"]);
}

#[test]
fn sorting_is_stable() {
    let events = vec![event("1", 0, 1, "b"), event("2", 0, 1, "a"), event("3", 0, 1, "b"), event("4", 0, 1, "a")];
    assert_eq!(ids(&sort_by_time(events.clone(), false)), vec!["2", "4", "1", "3"]);
    assert_eq!(ids(&sort_by_time(events, true)), vec!["1", "3", "2", "4"]);
}

#[test]
fn comments_are_grouped_under_their_parent() {
    let groups = group_events(vec![
        event("i1", 0, 1, "03"),
        event("c1", 2, 1, "05"),
        event("p2", 1, 2, "04"),
        event("c0", 2, 1, "01"),
    ]);
    assert_eq!(short(&groups), vec![("i1", vec!["c0", "c1"], "05"), ("p2", vec![], "04")]);
}

#[test]
fn groups_differ_by_repo_and_number() {
    let mut other = event("x", 0, 1, "02");
    other.repo = "o/other".to_string();
    let groups = group_events(vec![event("a", 0, 1, "01"), other, event("b", 0, 11, "03")]);
    assert_eq!(short(&groups), vec![("b", vec![], "03"), ("x", vec![], "02"), ("a", vec![], "01")]);
}

#[test]
fn a_comment_stands_in_for_its_parent() {
    let groups = group_events(vec![event("c1", 2, 1, "02"), event("c2", 2, 1, "01")]);
    assert_eq!(short(&groups), vec![("c1", vec!["c2", "c1"], "02")]);
}

#[test]
fn a_parent_takes_the_place_of_a_comment() {
    let groups = group_events(vec![
        event("c1", 2, 1, "02"),
        event("s1", 3, 1, "03"),
        event("i1", 0, 1, "01"),
    ]);
    assert_eq!(short(&groups), vec![("s1", vec!["c1"], "03")]);
}

#[test]
fn comments_before_their_issue_are_listed_once() {
    let i = event("o/r#1", 0, 1, "2026-01-01T00:00:00Z");
    let c = event("o/r#1:comment:9", 2, 1, "2026-01-02T00:00:00Z");
    let d = event("o/r#1:comment:8", 2, 1, "2026-01-01T12:00:00Z");
    let r = group_events(vec![c.clone(), i.clone()]);
    assert_eq!(r.len(), 1);
    assert_eq!(r[0].parent, i);
    assert_eq!(r[0].comments, vec![c.clone()]);
    assert_eq!(r[0].latest_timestamp, "2026-01-02T00:00:00Z");
    let r = group_events(vec![c.clone(), d.clone(), i.clone()]);
    assert_eq!(r[0].parent, i);
    assert_eq!(r[0].comments, vec![d, c]);
}

#[test]
fn events_of_unknown_kind_are_parents() {
    let groups = group_events(vec![event("c1", 2, 1, "01"), event("u1", 9, 1, "02"), event("i1", 0, 1, "03")]);
    assert_eq!(short(&groups), vec![("u1", vec!["c1"], "03")]);
}

#[test]
fn new_activity_brings_a_group_to_the_top() {
    let mut events = vec![event("i1", 0, 1, "01"), event("i2", 0, 2, "02")];
    assert_eq!(group_events(events.clone())[0].parent.id, "i2");
    events.push(event("c1", 2, 1, "03"));
    assert_eq!(group_events(events)[0].parent.id, "i1");
    assert!(group_events(Vec::new()).is_empty());
}

#[test]
fn comment_rows_show_author_and_preview() {
    let row = CommentRow::new(GhEvent {
        author: "bob".to_string(),
        body: "hi".to_string(),
        ..event("c", 2, 1, "01")
    });
    assert_eq!(row.class, "event-comment-item list-group-item list-group-item-action unread");
    assert_eq!(row.author, "@bob");
    assert_eq!(row.preview, " \u{2014} hi");
    let row = CommentRow::new(GhEvent { read: true, ..event("c", 2, 1, "01") });
    assert_eq!(row.class, "event-comment-item list-group-item list-group-item-action");
    assert_eq!(row.preview, "");
    let row = CommentRow::new(GhEvent { body: "x".repeat(101), ..event("c", 2, 1, "01") });
    assert_eq!(row.preview, format!(" \u{2014} {}...", "x".repeat(100)));
}

fn group(parent: GhEvent, comments: Vec<GhEvent>) -> EventGroup {
    EventGroup { parent, comments, latest_timestamp: "01".to_string() }
}

#[test]
fn group_rows_show_their_parent() {
    let parent = GhEvent {
        author: "al".to_string(),
        body: "y".repeat(121),
        ..event("i", 0, 12, "01")
    };
    let row = EventGroupRow::new(group(parent, Vec::new()));
    assert_eq!(row.class, "list-group-item event-item unread");
    assert_eq!(row.badge_label, "Issue");
    assert_eq!(row.badge_flavor, Flavor::Success);
    assert_eq!(row.place, "o/r #12");
    assert_eq!(row.author, "@al");
    assert_eq!(row.preview, format!(" \u{2014} {}...", "y".repeat(120)));
    assert_eq!(row.mark_read_class, "btn btn-sm btn-secondary");
    assert_eq!(row.toggle_class, "d-none");
    assert_eq!(row.toggle_text, "");
    assert!(!row.has_toggle && !row.expanded);
    assert_eq!(row.comments_class, "event-group-comments");
    let row = EventGroupRow::new(group(GhEvent { read: true, ..event("i", 7, 1, "01") }, Vec::new()));
    assert_eq!(row.class, "list-group-item event-item");
    assert_eq!(row.mark_read_class, "btn btn-sm btn-secondary d-none");
    assert_eq!((row.badge_label.as_str(), row.badge_flavor), ("Issue", Flavor::Success));
}

#[test]
fn badges_have_flavors() {
    let flavors: Vec<Flavor> = (0..5)
        .map(|kind| EventGroupRow::new(group(event("i", kind, 1, "01"), Vec::new())).badge_flavor)
        .collect();
    assert_eq!(
        flavors,
        vec![Flavor::Success, Flavor::Primary, Flavor::Secondary, Flavor::Warning, Flavor::Info]
    );
}

#[test]
fn toggles_count_comments() {
    let one = || vec![event("c", 2, 1, "01")];
    let mut row = EventGroupRow::new(group(event("i", 0, 1, "01"), one()));
    assert_eq!(row.toggle_class, "comment-toggle text-muted");
    assert_eq!(row.toggle_text, "1 comment \u{25B6}");
    row.toggle();
    assert!(row.expanded);
    assert_eq!(row.toggle_text, "1 comment \u{25BC}");
    assert_eq!(row.comments_class, "event-group-comments expanded");
    row.toggle();
    assert!(!row.expanded);
    assert_eq!(row.toggle_text, "1 comment \u{25B6}");
    assert_eq!(row.comments_class, "event-group-comments");
    let many = (0..12).map(|i| event(&i.to_string(), 2, 1, "01")).collect();
    let row = EventGroupRow::new(group(event("i", 0, 1, "01"), many));
    assert_eq!(row.toggle_text, "12 comments \u{25B6}");
    assert_eq!(row.comment_rows.len(), 12);
}

#[test]
fn groups_without_comments_toggle_silently() {
    let mut row = EventGroupRow::new(group(event("i", 0, 1, "01"), Vec::new()));
    row.toggle();
    assert!(row.expanded);
    assert_eq!(row.toggle_text, "");
}

#[test]
fn bodies_cut_within_a_character_cannot_be_shown() {
    let wide = format!("{}\u{e9}\u{e9}", "z".repeat(119));
    let narrow = format!("{}\u{e9}{}", "z".repeat(99), "z".repeat(50));
    let with = |body: &str| GhEvent { body: body.to_string(), ..event("i", 0, 1, "01") };
    assert!(!showable(&group(with(&wide), Vec::new())));
    assert!(showable(&group(with(&narrow), Vec::new())));
    assert!(!showable(&group(with("ok"), vec![with("ok"), with(&narrow)])));
    assert!(showable(&group(with("ok"), vec![with(&wide)])));
}
