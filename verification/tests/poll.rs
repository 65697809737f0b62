use liase::config::RawSubscription;
use liase::github::{CommentPage, CommentRecord, IssuePage, IssueRecord, RepoPage};
use liase::poll::{client_error, split_name, GitHubPoller, PollReply, PollRequest, PollRun};
use liase::time::Timestamp;

fn at(secs: i64) -> Timestamp {
    Timestamp::new(secs, 0).unwrap()
}

fn poller(subs: &[(&str, &str)]) -> GitHubPoller {
    GitHubPoller::new(
        subs.iter()
            .map(|(kind, name)| RawSubscription { kind: kind.to_string(), name: name.to_string() })
            .collect(),
    )
}

/// A request in short: what is asked of whom, since when, and which page.
fn asked(run: &PollRun) -> String {
    match run.request() {
        None => "nothing".to_string(),
        Some(PollRequest::Repos { org, page }) => format!("repos of {org} page {page}"),
        Some(PollRequest::Issues { owner, repo, since, page }) => {
            format!("issues of {owner}|{repo} since {:?} page {page}", since.map(|t| t.timestamp()))
        }
        Some(PollRequest::Comments { owner, repo, since, page }) => {
            format!("comments of {owner}|{repo} since {:?} page {page}", since.map(|t| t.timestamp()))
        }
    }
}

fn repos(names: &[&str], has_next: bool) -> PollReply {
    PollReply::Repos(RepoPage {
        full_names: names
            .iter()
            .map(|n| if n.is_empty() { None } else { Some(n.to_string()) })
            .collect(),
        has_next,
    })
}

fn issues(numbers: &[u64], has_next: bool) -> PollReply {
    PollReply::Issues(IssuePage {
        items: numbers
            .iter()
            .map(|n| IssueRecord {
                number: *n,
                title: format!("t{n}"),
                author: "a".to_string(),
                avatar_url: "v".to_string(),
                body: None,
                html_url: "u".to_string(),
                updated_at: at(0),
                is_pull_request: false,
            })
            .collect(),
        has_next,
    })
}

fn comments(ids: &[u64], has_next: bool) -> PollReply {
    PollReply::Comments(CommentPage {
        items: ids
            .iter()
            .map(|id| CommentRecord {
                id: *id,
                issue_path: Some("/repos/o/r/issues/1".to_string()),
                author: "a".to_string(),
                avatar_url: "v".to_string(),
                body: None,
                html_url: "u".to_string(),
                created_at: at(0),
                updated_at: None,
            })
            .collect(),
        has_next,
    })
}

fn ids(run: &PollRun) -> Vec<String> {
    run.events.iter().map(|e| e.id.clone()).collect()
}

#[test]
fn names_are_split_at_the_first_slash() {
    assert_eq!(split_name("o/r"), Some(("o".to_string(), "r".to_string())));
    assert_eq!(split_name("o/r/s"), Some(("o".to_string(), "r/s".to_string())));
    assert_eq!(split_name("/"), Some(("".to_string(), "".to_string())));
    assert_eq!(split_name("o"), None);
    assert_eq!(split_name(""), None);
}

#[test]
fn repos_are_sorted_and_polled_once() {
    let mut p = poller(&[("repo", "b/x"), ("org", "o"), ("repo", "a/x"), ("team", "t/t"), ("repo", "b/x")]);
    assert_eq!(p.all_repos(), vec!["a/x", "b/x"]);
    let run = p.poll(at(0));
    assert_eq!(asked(&run), "repos of o page 1");
    let run = p.advance(run, repos(&["o/z", "", "a/x"], false), at(1));
    assert_eq!(p.all_repos(), vec!["a/x", "b/x", "o/z"]);
    assert_eq!(asked(&run), "issues of a|x since None page 1");
}

#[test]
fn a_run_without_subscriptions_is_finished() {
    let mut p = poller(&[]);
    let run = p.poll(at(0));
    assert_eq!(asked(&run), "nothing");
    assert!(run.events.is_empty());
    assert_eq!(run.failure("x"), None);
}

#[test]
fn invalid_names_are_skipped() {
    let mut p = poller(&[("repo", "aaa"), ("repo", "o/r"), ("repo", "zzz")]);
    let run = p.poll(at(0));
    assert_eq!(asked(&run), "issues of o|r since None page 1");
    let run = p.advance(run, issues(&[], false), at(1));
    let run = p.advance(run, comments(&[], false), at(1));
    assert_eq!(asked(&run), "nothing");
}

#[test]
fn a_run_lists_issues_then_comments() {
    let mut p = poller(&[("repo", "o/r"), ("repo", "p/q")]);
    let run = p.poll(at(0));
    let run = p.advance(run, issues(&[1, 2], true), at(1));
    assert_eq!(asked(&run), "issues of o|r since None page 2");
    assert!(run.events.is_empty());
    let run = p.advance(run, issues(&[3], false), at(2));
    assert_eq!(ids(&run), vec!["o/r#1", "o/r#2", "o/r#3"]);
    assert_eq!(asked(&run), "comments of o|r since None page 1");
    let run = p.advance(run, comments(&[8], false), at(3));
    assert_eq!(asked(&run), "issues of p|q since None page 1");
    let run = p.advance(run, issues(&[], true), at(4));
    assert_eq!(asked(&run), "comments of p|q since None page 1");
    let run = p.advance(run, comments(&[], true), at(5));
    assert_eq!(asked(&run), "nothing");
    assert_eq!(ids(&run), vec!["o/r#1", "o/r#2", "o/r#3", "o/r#1:comment:8"]);
}

#[test]
fn the_next_run_resumes() {
    let mut p = poller(&[("repo", "o/r")]);
    let run = p.poll(at(0));
    let run = p.advance(run, issues(&[1], false), at(100));
    let run = p.advance(run, comments(&[], false), at(200));
    assert_eq!(asked(&run), "nothing");
    let run = p.poll(at(300));
    assert_eq!(asked(&run), "issues of o|r since Some(100) page 1");
    let run = p.advance(run, issues(&[], false), at(400));
    assert_eq!(asked(&run), "comments of o|r since Some(200) page 1");
}

#[test]
fn a_failed_poll_is_made_up_for() {
    let mut p = poller(&[("repo", "o/r")]);
    let run = p.poll(at(0));
    let run = p.advance(run, issues(&[1], true), at(1));
    let run = p.advance(run, PollReply::Failed, at(2));
    assert!(run.events.is_empty());
    let run = p.advance(run, comments(&[5], false), at(3));
    assert_eq!(ids(&run), vec!["o/r#1:comment:5"]);
    let run = p.poll(at(10));
    assert_eq!(asked(&run), "issues of o|r since None page 1");
    let run = p.advance(run, issues(&[], false), at(11));
    assert_eq!(asked(&run), "comments of o|r since Some(3) page 1");
    let run = p.advance(run, PollReply::Failed, at(12));
    assert_eq!(asked(&run), "nothing");
    let run = p.poll(at(20));
    assert_eq!(asked(&run), "issues of o|r since Some(11) page 1");
}

#[test]
fn a_first_fetch_ends_after_three_pages() {
    let mut p = poller(&[("repo", "o/r")]);
    let mut run = p.poll(at(0));
    for page in 1..4 {
        assert_eq!(asked(&run), format!("issues of o|r since None page {page}"));
        run = p.advance(run, issues(&[page], true), at(1));
    }
    for page in 1..4 {
        assert_eq!(asked(&run), format!("comments of o|r since None page {page}"));
        run = p.advance(run, comments(&[page], true), at(1));
    }
    assert_eq!(asked(&run), "nothing");
    assert_eq!(run.events.len(), 6);
    let mut run = p.poll(at(2));
    for page in 1..8 {
        assert_eq!(asked(&run), format!("issues of o|r since Some(1) page {page}"));
        run = p.advance(run, issues(&[page], true), at(3));
    }
}

#[test]
fn orgs_are_discovered_every_ten_minutes() {
    let mut p = poller(&[("org", "o"), ("org", "e")]);
    let run = p.poll(at(0));
    assert_eq!(asked(&run), "repos of o page 1");
    let run = p.advance(run, repos(&["o/a"], true), at(1));
    assert_eq!(asked(&run), "repos of o page 2");
    let run = p.advance(run, repos(&["o/b"], false), at(1));
    assert_eq!(asked(&run), "repos of e page 1");
    let run = p.advance(run, PollReply::Failed, at(1));
    assert_eq!(asked(&run), "issues of o|a since None page 1");
    assert_eq!(p.all_repos(), vec!["o/a", "o/b"]);
    let run = p.poll(at(599));
    assert_eq!(asked(&run), "issues of o|a since None page 1");
    let run = p.poll(at(600));
    assert_eq!(asked(&run), "repos of o page 1");
    let run = p.advance(run, PollReply::Failed, at(601));
    let run = p.advance(run, repos(&[], true), at(601));
    assert_eq!(p.all_repos(), vec!["o/a", "o/b"]);
    assert_eq!(asked(&run), "issues of o|a since None page 1");
}

#[test]
fn failures_are_reported_in_words() {
    let mut p = poller(&[("org", "o"), ("repo", "a/b")]);
    let run = p.poll(at(0));
    assert_eq!(run.failure("x").unwrap(), "GitHub API error listing repos for o: x");
    let run = p.advance(run, PollReply::Failed, at(0));
    assert_eq!(run.failure("x").unwrap(), "GitHub API error for a/b: x");
    let run = p.advance(run, PollReply::Failed, at(0));
    assert_eq!(run.failure("x").unwrap(), "GitHub API error for a/b comments: x");
    assert_eq!(client_error("x"), "Failed to create GitHub client: x");
}

#[test]
fn a_reply_to_something_else_is_a_failure() {
    let mut p = poller(&[("repo", "o/r")]);
    let run = p.poll(at(0));
    let run = p.advance(run, comments(&[1], false), at(5));
    assert_eq!(asked(&run), "comments of o|r since None page 1");
    assert!(run.events.is_empty());
    let run = p.advance(run, issues(&[1], false), at(5));
    assert_eq!(asked(&run), "nothing");
    let run = p.advance(run, PollReply::Failed, at(5));
    assert_eq!(asked(&run), "nothing");
}

#[test]
fn a_whole_run_brings_the_events_in_order() {
    let mut p = poller(&[("repo", "b/x"), ("org", "o")]);
    let run = p.poll(at(0));
    let run = p.advance(run, repos(&["o/z", "a/y"], false), at(1));
    // a/y: both succeed
    let run = p.advance(run, issues(&[1], true), at(2));
    let run = p.advance(run, issues(&[2], false), at(3));
    let run = p.advance(run, comments(&[11], false), at(4));
    // b/x: the issues fail on their second page
    let run = p.advance(run, issues(&[3], true), at(5));
    let run = p.advance(run, PollReply::Failed, at(6));
    let run = p.advance(run, comments(&[12], false), at(7));
    // o/z: the comments fail
    let run = p.advance(run, issues(&[4], false), at(8));
    let run = p.advance(run, PollReply::Failed, at(9));
    assert_eq!(asked(&run), "nothing");
    assert_eq!(
        ids(&run),
        vec!["a/y#1", "a/y#2", "a/y#1:comment:11", "b/x#1:comment:12", "o/z#4"]
    );
    let mut run = p.poll(at(100));
    let mut asks = Vec::new();
    while run.request().is_some() {
        asks.push(asked(&run));
        run = p.advance(run, PollReply::Failed, at(101));
    }
    assert_eq!(
        asks,
        vec![
            "issues of a|y since Some(3) page 1",
            "comments of a|y since Some(4) page 1",
            "issues of b|x since None page 1",
            "comments of b|x since Some(7) page 1",
            "issues of o|z since Some(8) page 1",
            "comments of o|z since None page 1",
        ]
    );
}
