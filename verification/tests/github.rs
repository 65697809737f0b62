use liase::github::{
    event_of_comment, event_of_comment_at, event_of_issue, event_of_issue_at, issue_number,
    CommentRecord, IssueRecord,
};
use liase::time::Timestamp;

fn path(s: &str) -> Option<String> {
    Some(s.to_string())
}

fn issue() -> IssueRecord {
    IssueRecord {
        number: 7,
        title: "Broken".to_string(),
        author: "alice".to_string(),
        avatar_url: "https://a/1".to_string(),
        body: Some("it broke".to_string()),
        html_url: "https://g/7".to_string(),
        updated_at: Timestamp::new(1_709_210_096, 0).unwrap(),
        is_pull_request: false,
    }
}

fn comment() -> CommentRecord {
    CommentRecord {
        id: 99,
        issue_path: path("/repos/o/r/issues/7"),
        author: "bob".to_string(),
        avatar_url: "https://a/2".to_string(),
        body: None,
        html_url: "https://g/7#99".to_string(),
        created_at: Timestamp::new(0, 0).unwrap(),
        updated_at: None,
    }
}

#[test]
fn issue_numbers_come_from_paths() {
    assert_eq!(issue_number(&path("/repos/o/r/issues/42")), 42);
    assert_eq!(issue_number(&path("/42")), 42);
    assert_eq!(issue_number(&path("/repos/o/r/issues/")), 0);
    assert_eq!(issue_number(&path("/repos/o/r/issues/x")), 0);
    assert_eq!(issue_number(&path("42")), 0);
    assert_eq!(issue_number(&path("")), 0);
    assert_eq!(issue_number(&path("/issues/18446744073709551616")), 0);
    assert_eq!(issue_number(&None), 0);
}

#[test]
fn issues_become_events() {
    let e = event_of_issue(&"o/r".to_string(), &issue());
    assert_eq!(e.id, "o/r#7");
    assert_eq!(e.kind, 0);
    assert_eq!(e.repo, "o/r");
    assert_eq!(e.number, 7);
    assert_eq!(e.title, "Broken");
    assert_eq!(e.author, "alice");
    assert_eq!(e.avatar_url.as_deref(), Some("https://a/1"));
    assert_eq!(e.body, "it broke");
    assert_eq!(e.url, "https://g/7");
    assert_eq!(e.timestamp, "2024-02-29T12:34:56+00:00");
    assert!(!e.read);
    let pr = IssueRecord { is_pull_request: true, body: None, ..issue() };
    let e = event_of_issue(&"o/r".to_string(), &pr);
    assert_eq!(e.kind, 1);
    assert_eq!(e.body, "");
}

#[test]
fn comments_become_events() {
    let e = event_of_comment(&"o/r".to_string(), &comment());
    assert_eq!(e.id, "o/r#7:comment:99");
    assert_eq!(e.kind, 2);
    assert_eq!(e.number, 7);
    assert_eq!(e.title, "Comment on #7");
    assert_eq!(e.body, "");
    assert_eq!(e.timestamp, "1970-01-01T00:00:00+00:00");
    let updated = CommentRecord { updated_at: Timestamp::new(60, 0), issue_path: None, ..comment() };
    let e = event_of_comment(&"o/r".to_string(), &updated);
    assert_eq!(e.id, "o/r#0:comment:99");
    assert_eq!(e.timestamp, "1970-01-01T00:01:00+00:00");
}

#[test]
fn times_are_taken_as_given() {
    let repo = "o/r".to_string();
    assert_eq!(event_of_issue_at(&repo, &issue(), "now".to_string()).timestamp, "now");
    assert_eq!(event_of_comment_at(&repo, &comment(), "now".to_string()).timestamp, "now");
}

#[test]
fn event_ids_differ() {
    let ids = vec![
        event_of_issue(&"o/r".to_string(), &issue()).id,
        event_of_issue(&"o/r2".to_string(), &issue()).id,
        event_of_issue(&"o/r".to_string(), &IssueRecord { number: 71, ..issue() }).id,
        event_of_comment(&"o/r".to_string(), &comment()).id,
        event_of_comment(&"o/r".to_string(), &CommentRecord { id: 9, ..comment() }).id,
    ];
    for i in 0..ids.len() {
        for j in 0..i {
            assert_ne!(ids[i], ids[j]);
        }
    }
}
