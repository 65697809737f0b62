//! What GitHub lists, and the events that come of it.

use crate::text::{chars_of, decimal_text, parse_u64};
use crate::time::Timestamp;
use crate::wire::{EventKind, GhEvent};
use vstd::prelude::*;
use vstd::string::{StrSliceExecFns, StringExecFns};

verus! {

/// How many items a page of a listing holds.
pub const PER_PAGE: u8 = 100;

/// How many pages of a repo's issues or comments are fetched where nothing was fetched before.
pub const FIRST_FETCH_PAGES: u32 = 3;

/// How many minutes pass before the repos of orgs are discovered again.
pub const DISCOVERY_MINUTES: i64 = 10;

/// Tracks per-repo polling state.
#[derive(Clone, Copy, Debug, PartialEq, Eq, Structural)]
pub struct RepoState {
    /// Last time we successfully polled this repo's issues/PRs.
    pub last_issue_poll: Option<Timestamp>,
    /// Last time we successfully polled this repo's comments.
    pub last_comment_poll: Option<Timestamp>,
}

/// An issue or PR as GitHub lists it.
#[derive(Debug)]
pub struct IssueRecord {
    pub number: u64,
    pub title: String,
    pub author: String,
    pub avatar_url: String,
    pub body: Option<String>,
    pub html_url: String,
    pub updated_at: Timestamp,
    pub is_pull_request: bool,
}

/// A comment on an issue or PR as GitHub lists it.
#[derive(Debug)]
pub struct CommentRecord {
    pub id: u64,
    /// The path of the URL of the issue or PR, where the comment names one.
    pub issue_path: Option<String>,
    pub author: String,
    pub avatar_url: String,
    pub body: Option<String>,
    pub html_url: String,
    pub created_at: Timestamp,
    pub updated_at: Option<Timestamp>,
}

/// A page of an org's repos; a repo may come without its full name.
#[derive(Debug)]
pub struct RepoPage {
    pub full_names: Vec<Option<String>>,
    pub has_next: bool,
}

/// A page of a repo's issues and PRs.
#[derive(Debug)]
pub struct IssuePage {
    pub items: Vec<IssueRecord>,
    pub has_next: bool,
}

/// A page of the comments on a repo's issues and PRs.
#[derive(Debug)]
pub struct CommentPage {
    pub items: Vec<CommentRecord>,
    pub has_next: bool,
}

/// The part of a path behind its last slash.
pub open spec fn last_segment(path: Seq<char>) -> Seq<char>
    decreases path.len(),
{
    if path.len() == 0 || path.last() == '/' {
        Seq::empty()
    } else {
        last_segment(path.drop_last()).push(path.last())
    }
}

/// The issue number that the path of an issue's URL ends in, or 0 where there is none.
pub open spec fn issue_number_of(path: Option<Seq<char>>) -> u64 {
    match path {
        Some(path) => if path.len() > 0 && path[0] == '/' {
            match crate::text::parsed_u64(last_segment(path)) {
                Some(number) => number,
                None => 0,
            }
        } else {
            0
        },
        None => 0,
    }
}

/// Extract the issue number from the path of an issue's URL.
/// Format: /repos/{owner}/{repo}/issues/{number}
pub fn issue_number(path: &Option<String>) -> (r: u64)
    ensures
        r == issue_number_of(crate::wire::option_text(*path)),
{
    match path {
        Some(path) => {
            let chars = chars_of(path.as_str());
            if chars.len() == 0 || chars[0] != '/' {
                return 0;
            }
            let mut from: usize = chars.len();
            assert(chars@.take(from as int) =~= path@);
            assert(chars@.skip(from as int) =~= Seq::empty());
            assert(last_segment(path@) =~= last_segment(path@) + chars@.skip(from as int));
            while from > 0 && chars[from - 1] != '/'
                invariant
                    chars@ == path@,
                    from <= chars.len(),
                    last_segment(path@) == last_segment(chars@.take(from as int)) + chars@.skip(
                        from as int,
                    ),
                decreases from,
            {
                assert(chars@.take(from as int).drop_last() =~= chars@.take(from - 1));
                assert(last_segment(chars@.take(from - 1)).push(chars@[from - 1]) + chars@.skip(
                    from as int,
                ) =~= last_segment(chars@.take(from - 1)) + chars@.skip(from - 1));
                from = from - 1;
            }
            assert(last_segment(chars@.take(from as int)) =~= Seq::empty());
            let segment = path.as_str().substring_char(from, chars.len());
            assert(segment@ =~= last_segment(path@));
            match parse_u64(segment) {
                Some(number) => number,
                None => 0,
            }
        },
        None => 0,
    }
}

/// The identifier of an issue or PR.
pub open spec fn issue_id(repo: Seq<char>, number: u64) -> Seq<char> {
    repo + "#"@ + crate::text::decimal(number as nat)
}

/// The identifier of a comment.
pub open spec fn comment_id(repo: Seq<char>, number: u64, comment: u64) -> Seq<char> {
    repo + "#"@ + crate::text::decimal(number as nat) + ":comment:"@ + crate::text::decimal(
        comment as nat,
    )
}

/// A text, or the empty text where there is none.
pub open spec fn text_or_empty(text: Option<String>) -> Seq<char> {
    match text {
        Some(text) => text@,
        None => Seq::empty(),
    }
}

/// The RFC 3339 form of a point in time.
pub open spec fn time_text(t: Timestamp) -> Seq<char> {
    crate::time::rfc3339_text(t.seconds(), t.subsec_nanos())
}

/// The event for an issue or PR, with the text of the time at which it was updated.
pub open spec fn issue_event_at(
    repo: Seq<char>,
    issue: IssueRecord,
    timestamp: Seq<char>,
) -> crate::wire::EventModel {
    crate::wire::EventModel {
        id: issue_id(repo, issue.number),
        kind: crate::wire::kind_code(
            if issue.is_pull_request {
                EventKind::NewPullRequest
            } else {
                EventKind::NewIssue
            },
        ),
        repo,
        number: issue.number,
        title: issue.title@,
        author: issue.author@,
        avatar_url: Some(issue.avatar_url@),
        body: text_or_empty(issue.body),
        url: issue.html_url@,
        timestamp,
        read: false,
    }
}

/// The event for an issue or PR.
pub open spec fn issue_event(repo: Seq<char>, issue: IssueRecord) -> crate::wire::EventModel {
    issue_event_at(repo, issue, time_text(issue.updated_at))
}

/// The event for a comment, with the text of its time.
pub open spec fn comment_event_at(
    repo: Seq<char>,
    comment: CommentRecord,
    timestamp: Seq<char>,
) -> crate::wire::EventModel {
    let number = issue_number_of(crate::wire::option_text(comment.issue_path));
    crate::wire::EventModel {
        id: comment_id(repo, number, comment.id),
        kind: crate::wire::kind_code(EventKind::NewComment),
        repo,
        number,
        title: "Comment on #"@ + crate::text::decimal(number as nat),
        author: comment.author@,
        avatar_url: Some(comment.avatar_url@),
        body: text_or_empty(comment.body),
        url: comment.html_url@,
        timestamp,
        read: false,
    }
}

/// The time of a comment: when it was updated, or else created.
pub open spec fn comment_time(comment: CommentRecord) -> Timestamp {
    match comment.updated_at {
        Some(updated_at) => updated_at,
        None => comment.created_at,
    }
}

/// The event for a comment.
pub open spec fn comment_event(repo: Seq<char>, comment: CommentRecord) -> crate::wire::EventModel {
    comment_event_at(repo, comment, time_text(comment_time(comment)))
}

/// The events for a page of issues and PRs.
pub open spec fn issue_events(repo: Seq<char>, issues: Seq<IssueRecord>) -> Seq<
    crate::wire::EventModel,
> {
    issues.map_values(|i: IssueRecord| issue_event(repo, i))
}

/// The events for a page of comments.
pub open spec fn comment_events(repo: Seq<char>, comments: Seq<CommentRecord>) -> Seq<
    crate::wire::EventModel,
> {
    comments.map_values(|c: CommentRecord| comment_event(repo, c))
}

fn owned_or_empty(text: &Option<String>) -> (r: String)
    ensures
        r@ == text_or_empty(*text),
{
    match text {
        Some(text) => text.clone(),
        None => String::new(),
    }
}

/// The event for an issue or PR of a repo, which is given by its full name, with the text of the
/// time at which it was updated.
pub fn event_of_issue_at(repo: &String, issue: &IssueRecord, timestamp: String) -> (r: GhEvent)
    ensures
        r@ == issue_event_at(repo@, *issue, timestamp@),
        r.author@ == issue.author@,
        r.url@ == issue.html_url@,
        issue.body matches Some(body) ==> r.body@ == body@,
        issue.body is None ==> r.body@.len() == 0,
{
    let kind = if issue.is_pull_request {
        EventKind::NewPullRequest
    } else {
        EventKind::NewIssue
    };
    let mut id = repo.clone();
    id.append("#");
    id.append(decimal_text(issue.number).as_str());
    GhEvent {
        id,
        kind: u32::from(kind),
        repo: repo.clone(),
        number: issue.number,
        title: issue.title.clone(),
        author: issue.author.clone(),
        avatar_url: Some(issue.avatar_url.clone()),
        body: owned_or_empty(&issue.body),
        url: issue.html_url.clone(),
        timestamp,
        read: false,
    }
}

/// The event for an issue or PR of a repo, which is given by its full name.
pub fn event_of_issue(repo: &String, issue: &IssueRecord) -> (r: GhEvent)
    ensures
        r@ == issue_event(repo@, *issue),
{
    event_of_issue_at(repo, issue, issue.updated_at.to_rfc3339())
}

/// The event for a comment on an issue or PR of a repo, which is given by its full name, with the
/// text of the comment's time.
pub fn event_of_comment_at(
    repo: &String,
    comment: &CommentRecord,
    timestamp: String,
) -> (r: GhEvent)
    ensures
        r@ == comment_event_at(repo@, *comment, timestamp@),
        r.author@ == comment.author@,
        r.url@ == comment.html_url@,
        comment.body matches Some(body) ==> r.body@ == body@,
        comment.body is None ==> r.body@.len() == 0,
{
    let number: u64 = issue_number(&comment.issue_path);
    let mut id = repo.clone();
    id.append("#");
    id.append(decimal_text(number).as_str());
    id.append(":comment:");
    id.append(decimal_text(comment.id).as_str());
    let mut title = "Comment on #".to_owned();
    title.append(decimal_text(number).as_str());
    GhEvent {
        id,
        kind: u32::from(EventKind::NewComment),
        repo: repo.clone(),
        number,
        title,
        author: comment.author.clone(),
        avatar_url: Some(comment.avatar_url.clone()),
        body: owned_or_empty(&comment.body),
        url: comment.html_url.clone(),
        timestamp,
        read: false,
    }
}

/// The event for a comment on an issue or PR of a repo, which is given by its full name.
pub fn event_of_comment(repo: &String, comment: &CommentRecord) -> (r: GhEvent)
    ensures
        r@ == comment_event(repo@, *comment),
{
    let at = match comment.updated_at {
        Some(updated_at) => updated_at,
        None => comment.created_at,
    };
    event_of_comment_at(repo, comment, at.to_rfc3339())
}

/// Whether `c` does not occur in `s`.
pub open spec fn free_of(s: Seq<char>, c: char) -> bool {
    forall|i: int| 0 <= i < s.len() ==> #[trigger] s[i] != c
}

/// What stands before and behind the last occurrence of a character is determined.
proof fn split_at_last(p: Seq<char>, s: Seq<char>, q: Seq<char>, t: Seq<char>, c: char)
    requires
        p + seq![c] + s == q + seq![c] + t,
        free_of(s, c),
        free_of(t, c),
    ensures
        p == q,
        s == t,
{
    let x = p + seq![c] + s;
    let y = q + seq![c] + t;
    assert(x.len() == p.len() + 1 + s.len());
    assert(y.len() == q.len() + 1 + t.len());
    assert(x[p.len() as int] == c);
    assert(y[q.len() as int] == c);
    if p.len() < q.len() {
        assert(x[q.len() as int] == s[q.len() - p.len() - 1]);
    }
    if q.len() < p.len() {
        assert(y[p.len() as int] == t[p.len() - q.len() - 1]);
    }
    assert(p =~= x.take(p.len() as int));
    assert(q =~= y.take(q.len() as int));
    assert(s =~= x.skip(p.len() as int + 1));
    assert(t =~= y.skip(q.len() as int + 1));
}

proof fn digits_free(n: u64, c: char)
    requires
        !crate::text::is_digit(c),
    ensures
        free_of(crate::text::decimal(n as nat), c),
{
    crate::text::decimal_is_digits(n as nat);
    assert forall|i: int| 0 <= i < crate::text::decimal(n as nat).len() implies #[trigger]
        crate::text::decimal(n as nat)[i] != c by {
        assert(crate::text::is_digit(crate::text::decimal(n as nat)[i]));
    }
}

proof fn comment_id_forms(repo: Seq<char>, number: u64, comment: u64)
    ensures
        ({
            let d = crate::text::decimal(number as nat);
            let e = crate::text::decimal(comment as nat);
            &&& comment_id(repo, number, comment) == repo + seq!['#'] + (d + ":comment:"@ + e)
            &&& comment_id(repo, number, comment) == (repo + seq!['#'] + (d + ":comment"@))
                + seq![':'] + e
            &&& free_of(d + ":comment:"@ + e, '#')
            &&& free_of(d + ":comment"@, '#')
            &&& free_of(e, ':')
        }),
{
    reveal_strlit("#");
    reveal_strlit(":comment:");
    reveal_strlit(":comment");
    let d = crate::text::decimal(number as nat);
    let e = crate::text::decimal(comment as nat);
    assert("#"@ =~= seq!['#']);
    assert(":comment:"@ =~= ":comment"@ + seq![':']);
    assert(comment_id(repo, number, comment) =~= repo + seq!['#'] + (d + ":comment:"@ + e));
    assert(comment_id(repo, number, comment) =~= (repo + seq!['#'] + (d + ":comment"@))
        + seq![':'] + e);
    digits_free(number, '#');
    digits_free(comment, '#');
    digits_free(comment, ':');
}

/// No two issues or PRs share an identifier.
pub proof fn issue_ids_are_unique(r1: Seq<char>, n1: u64, r2: Seq<char>, n2: u64)
    requires
        issue_id(r1, n1) == issue_id(r2, n2),
    ensures
        r1 == r2,
        n1 == n2,
{
    reveal_strlit("#");
    assert("#"@ =~= seq!['#']);
    digits_free(n1, '#');
    digits_free(n2, '#');
    split_at_last(
        r1,
        crate::text::decimal(n1 as nat),
        r2,
        crate::text::decimal(n2 as nat),
        '#',
    );
    crate::text::decimal_injective(n1 as nat, n2 as nat);
}

/// No two comments share an identifier.
pub proof fn comment_ids_are_unique(
    r1: Seq<char>,
    n1: u64,
    c1: u64,
    r2: Seq<char>,
    n2: u64,
    c2: u64,
)
    requires
        comment_id(r1, n1, c1) == comment_id(r2, n2, c2),
    ensures
        r1 == r2,
        n1 == n2,
        c1 == c2,
{
    let d1 = crate::text::decimal(n1 as nat);
    let d2 = crate::text::decimal(n2 as nat);
    comment_id_forms(r1, n1, c1);
    comment_id_forms(r2, n2, c2);
    split_at_last(
        r1 + seq!['#'] + (d1 + ":comment"@),
        crate::text::decimal(c1 as nat),
        r2 + seq!['#'] + (d2 + ":comment"@),
        crate::text::decimal(c2 as nat),
        ':',
    );
    split_at_last(r1, d1 + ":comment"@, r2, d2 + ":comment"@, '#');
    assert(d1 =~= (d1 + ":comment"@).take(d1.len() as int));
    assert(d2 =~= (d2 + ":comment"@).take(d2.len() as int));
    assert(d1.len() == d2.len());
    crate::text::decimal_injective(n1 as nat, n2 as nat);
    crate::text::decimal_injective(c1 as nat, c2 as nat);
}

/// No comment shares its identifier with an issue or PR.
pub proof fn comment_id_is_no_issue_id(r1: Seq<char>, n1: u64, r2: Seq<char>, n2: u64, c2: u64)
    ensures
        issue_id(r1, n1) != comment_id(r2, n2, c2),
{
    if issue_id(r1, n1) == comment_id(r2, n2, c2) {
        let d1 = crate::text::decimal(n1 as nat);
        let d2 = crate::text::decimal(n2 as nat);
        let tail = d2 + ":comment:"@ + crate::text::decimal(c2 as nat);
        reveal_strlit("#");
        reveal_strlit(":comment:");
        assert("#"@ =~= seq!['#']);
        digits_free(n1, '#');
        digits_free(n1, ':');
        comment_id_forms(r2, n2, c2);
        split_at_last(r1, d1, r2, tail, '#');
        assert(tail[d2.len() as int] == ':');
    }
}

/// The event of a comment keeps the comment: its author, avatar URL, URL and body are those of
/// the record, with an empty body where the record has none.
pub proof fn comment_events_keep_the_comment(
    repo: Seq<char>,
    comment: CommentRecord,
    timestamp: Seq<char>,
)
    ensures
        ({
            let event = comment_event_at(repo, comment, timestamp);
            &&& comment.body is Some ==> event.body == comment.body->0@
            &&& comment.body is None ==> event.body.len() == 0
            &&& event.author == comment.author@
            &&& event.avatar_url == Some(comment.avatar_url@)
            &&& event.url == comment.html_url@
            &&& event.repo == repo
            &&& event.timestamp == timestamp
            &&& !event.read
            &&& event.kind == 2
        }),
{
}

/// The event of a comment belongs to the issue or PR that the comment's path ends in: its number,
/// its title and its identifier name it, and the identifier ends in the comment's own.
pub proof fn comment_events_name_their_issue(
    repo: Seq<char>,
    comment: CommentRecord,
    timestamp: Seq<char>,
    before: Seq<char>,
    number: u64,
)
    requires
        comment.issue_path is Some,
        comment.issue_path->0@ == before + seq!['/'] + crate::text::decimal(number as nat),
        before.len() == 0 || before[0] == '/',
    ensures
        ({
            let event = comment_event_at(repo, comment, timestamp);
            &&& event.number == number
            &&& event.title == "Comment on #"@ + crate::text::decimal(number as nat)
            &&& event.id == repo + "#"@ + crate::text::decimal(number as nat) + ":comment:"@
                + crate::text::decimal(comment.id as nat)
        }),
{
    paths_end_in_the_number(before, number);
}

/// The event of a comment that names no issue or PR has the number 0.
pub proof fn comment_events_without_issue(
    repo: Seq<char>,
    comment: CommentRecord,
    timestamp: Seq<char>,
)
    requires
        comment.issue_path is None || comment.issue_path->0@.len() == 0
            || comment.issue_path->0@[0] != '/' || comment.issue_path->0@.last() == '/',
    ensures
        comment_event_at(repo, comment, timestamp).number == 0,
        comment_event_at(repo, comment, timestamp).title == "Comment on #"@ + seq!['0'],
        comment_event_at(repo, comment, timestamp).id == repo + "#"@ + seq!['0'] + ":comment:"@
            + crate::text::decimal(comment.id as nat),
{
    assert(crate::text::decimal(0) =~= seq!['0']);
}

proof fn last_segment_of(before: Seq<char>, segment: Seq<char>)
    requires
        free_of(segment, '/'),
    ensures
        last_segment(before + seq!['/'] + segment) == segment,
    decreases segment.len(),
{
    let path = before + seq!['/'] + segment;
    if segment.len() > 0 {
        let front = segment.drop_last();
        assert(path.drop_last() =~= before + seq!['/'] + front);
        assert(free_of(front, '/')) by {
            assert forall|i: int| 0 <= i < front.len() implies #[trigger] front[i] != '/' by {
                assert(segment[i] != '/');
            }
        }
        last_segment_of(before, front);
        assert(path.last() == segment.last());
        assert(segment[segment.len() - 1] != '/');
        assert(front.push(segment.last()) =~= segment);
    } else {
        assert(path.last() == '/');
        assert(last_segment(path) =~= segment);
    }
}

/// A path ends in an issue number exactly as it was written behind its last slash, whatever stands
/// before; a last part that is no number gives 0, and so does a path that is not absolute.
pub proof fn paths_end_in_the_number(before: Seq<char>, number: u64)
    ensures
        before.len() == 0 || before[0] == '/' ==> issue_number_of(
            Some(before + seq!['/'] + crate::text::decimal(number as nat)),
        ) == number,
        before.len() > 0 && before[0] != '/' ==> issue_number_of(
            Some(before + seq!['/'] + crate::text::decimal(number as nat)),
        ) == 0,
        issue_number_of(None) == 0,
{
    let path = before + seq!['/'] + crate::text::decimal(number as nat);
    digits_free(number, '/');
    last_segment_of(before, crate::text::decimal(number as nat));
    crate::text::parse_of_decimal(number);
    if before.len() == 0 {
        assert(path[0] == '/');
    } else {
        assert(path[0] == before[0]);
    }
}

/// A path whose last part is empty or holds a character that no number has gives 0.
pub proof fn paths_without_a_number(before: Seq<char>, segment: Seq<char>, i: int)
    requires
        free_of(segment, '/'),
        0 <= i < segment.len(),
        segment[i] < '0' || segment[i] > '9',
        i > 0 || segment[i] != '+',
    ensures
        issue_number_of(Some(before + seq!['/'] + segment)) == 0,
        issue_number_of(Some(before + seq!['/'])) == 0,
{
    last_segment_of(before, segment);
    crate::text::only_digits_are_read(segment, i);
    assert((before + seq!['/']).last() == '/');
}

/// The event of an issue or PR keeps it: number, title, author, avatar URL, URL and body are those
/// of the record, with an empty body where the record has none; its identifier is made of the repo
/// and the number.
pub proof fn issue_events_keep_the_issue(
    repo: Seq<char>,
    issue: IssueRecord,
    timestamp: Seq<char>,
)
    ensures
        ({
            let event = issue_event_at(repo, issue, timestamp);
            &&& issue.body is Some ==> event.body == issue.body->0@
            &&& issue.body is None ==> event.body.len() == 0
            &&& event.number == issue.number
            &&& event.title == issue.title@
            &&& event.author == issue.author@
            &&& event.avatar_url == Some(issue.avatar_url@)
            &&& event.url == issue.html_url@
            &&& event.repo == repo
            &&& event.timestamp == timestamp
            &&& !event.read
            &&& event.kind == 1 <==> issue.is_pull_request
            &&& event.kind == 0 <==> !issue.is_pull_request
            &&& event.id == repo + "#"@ + crate::text::decimal(issue.number as nat)
        }),
{
}

/// An event carries the time of its record: when an issue or PR was updated; when a comment was
/// updated, or created where it never was.
pub proof fn events_carry_their_time(repo: Seq<char>, issue: IssueRecord, comment: CommentRecord)
    ensures
        issue_event(repo, issue).timestamp == crate::time::rfc3339_text(
            issue.updated_at.seconds(),
            issue.updated_at.subsec_nanos(),
        ),
        issue_event(repo, issue) == issue_event_at(
            repo,
            issue,
            issue_event(repo, issue).timestamp,
        ),
        comment.updated_at matches Some(updated) ==> comment_event(repo, comment).timestamp
            == crate::time::rfc3339_text(updated.seconds(), updated.subsec_nanos()),
        comment.updated_at is None ==> comment_event(repo, comment).timestamp
            == crate::time::rfc3339_text(
            comment.created_at.seconds(),
            comment.created_at.subsec_nanos(),
        ),
        comment_event(repo, comment) == comment_event_at(
            repo,
            comment,
            comment_event(repo, comment).timestamp,
        ),
{
}

/// A page gives one event for each of its items, in their order.
pub proof fn pages_give_an_event_each(
    repo: Seq<char>,
    issues: Seq<IssueRecord>,
    comments: Seq<CommentRecord>,
)
    ensures
        issue_events(repo, issues).len() == issues.len(),
        forall|i: int|
            0 <= i < issues.len() ==> #[trigger] issue_events(repo, issues)[i] == issue_event(
                repo,
                issues[i],
            ),
        comment_events(repo, comments).len() == comments.len(),
        forall|i: int|
            0 <= i < comments.len() ==> #[trigger] comment_events(repo, comments)[i]
                == comment_event(repo, comments[i]),
{
}

/// The event that is made of a comment has the comment's author, avatar URL and URL, and its body,
/// or an empty one where it has none. It is an unread comment of the given repo and time.
pub proof fn comments_become_events(
    repo: &String,
    comment: &CommentRecord,
    timestamp: String,
    event: GhEvent,
)
    requires
        call_ensures(event_of_comment_at, (repo, comment, timestamp), event),
    ensures
        comment.body matches Some(text) ==> event.body@ == text@,
        comment.body is None ==> event.body@.len() == 0,
        event.author@ == comment.author@,
        event.avatar_url is Some,
        event.avatar_url->0@ == comment.avatar_url@,
        event.url@ == comment.html_url@,
        event.repo@ == repo@,
        event.timestamp@ == timestamp@,
        event.kind == 2,
        !event.read,
        event.title@ == "Comment on #"@ + crate::text::decimal(event.number as nat),
        event.id@ == repo@ + "#"@ + crate::text::decimal(event.number as nat) + ":comment:"@
            + crate::text::decimal(comment.id as nat),
{
    comment_events_keep_the_comment(repo@, *comment, timestamp@);
    crate::wire::events_are_their_fields(event);
}

/// The event that is made of an issue or PR has its number, title, author, avatar URL and URL, and
/// its body, or an empty one where it has none. It is unread, and of the given repo and time.
pub proof fn issues_become_events(
    repo: &String,
    issue: &IssueRecord,
    timestamp: String,
    event: GhEvent,
)
    requires
        call_ensures(event_of_issue_at, (repo, issue, timestamp), event),
    ensures
        issue.body matches Some(text) ==> event.body@ == text@,
        issue.body is None ==> event.body@.len() == 0,
        event.number == issue.number,
        event.title@ == issue.title@,
        event.author@ == issue.author@,
        event.avatar_url is Some,
        event.avatar_url->0@ == issue.avatar_url@,
        event.url@ == issue.html_url@,
        event.repo@ == repo@,
        event.timestamp@ == timestamp@,
        event.kind == if issue.is_pull_request {
            1u32
        } else {
            0u32
        },
        !event.read,
        event.id@ == repo@ + "#"@ + crate::text::decimal(issue.number as nat),
{
    issue_events_keep_the_issue(repo@, *issue, timestamp@);
    crate::wire::events_are_their_fields(event);
}

} // verus!
