//! Rows of the timeline: a parent event with its collapsible comments.

use crate::groups::EventGroup;
use crate::text::{decimal_text, is_empty, shorten, shortenable};
use crate::view::Flavor;
use crate::wire::{EventKind, GhEvent};
use vstd::prelude::*;
use vstd::string::StringExecFns;

verus! {

/// How many bytes of a comment's body its row shows.
pub const COMMENT_PREVIEW: usize = 100;

/// How many bytes of a parent's body its row shows.
pub const PARENT_PREVIEW: usize = 120;

/// Comment row (compact, nested under parent).
#[derive(Debug)]
pub struct CommentRow {
    pub class: String,
    pub author: String,
    pub preview: String,
    pub event_data: GhEvent,
}

/// The contents of a comment row.
pub struct CommentRowModel {
    pub class: Seq<char>,
    pub author: Seq<char>,
    pub preview: Seq<char>,
    pub event: GhEvent,
}

impl View for CommentRow {
    type V = CommentRowModel;

    open spec fn view(&self) -> CommentRowModel {
        CommentRowModel {
            class: self.class@,
            author: self.author@,
            preview: self.preview@,
            event: self.event_data,
        }
    }
}

/// How an event's author is shown.
pub open spec fn author_text(e: GhEvent) -> Seq<char> {
    "@"@ + e.author@
}

/// How the beginning of a body is shown behind the author, if there is a body.
pub open spec fn preview_text(body: Seq<char>, limit: nat) -> Seq<char> {
    if crate::text::shortened(body, limit).len() == 0 {
        Seq::empty()
    } else {
        " \u{2014} "@ + crate::text::shortened(body, limit)
    }
}

/// The row of a comment.
pub open spec fn comment_row(e: GhEvent) -> CommentRowModel {
    CommentRowModel {
        class: if e.read {
            "event-comment-item list-group-item list-group-item-action"@
        } else {
            "event-comment-item list-group-item list-group-item-action unread"@
        },
        author: author_text(e),
        preview: preview_text(e.body@, 100),
        event: e,
    }
}

fn author_of(e: &GhEvent) -> (r: String)
    ensures
        r@ == author_text(*e),
{
    let mut r = "@".to_owned();
    r.append(e.author.as_str());
    r
}

fn preview_of(body: &str, limit: usize) -> (r: String)
    requires
        crate::text::can_shorten(body@, limit as nat),
    ensures
        r@ == preview_text(body@, limit as nat),
{
    let preview = shorten(body, limit);
    if is_empty(preview.as_str()) {
        return String::new();
    }
    let mut r = " \u{2014} ".to_owned();
    r.append(preview.as_str());
    r
}

impl CommentRow {
    /// The row of a comment.
    pub fn new(event: GhEvent) -> (r: Self)
        requires
            crate::text::can_shorten(event.body@, 100),
        ensures
            r@ == comment_row(event),
    {
        let class = if event.read {
            "event-comment-item list-group-item list-group-item-action"
        } else {
            "event-comment-item list-group-item list-group-item-action unread"
        };
        CommentRow {
            class: class.to_owned(),
            author: author_of(&event),
            preview: preview_of(event.body.as_str(), COMMENT_PREVIEW),
            event_data: event,
        }
    }
}

/// Event group row (parent + collapsible comments).
#[derive(Debug)]
pub struct EventGroupRow {
    pub class: String,
    pub badge_label: String,
    pub badge_flavor: Flavor,
    /// The repo and the number of the issue or PR.
    pub place: String,
    pub author: String,
    pub preview: String,
    pub mark_read_class: String,
    pub toggle_class: String,
    /// The number of comments, and a chevron that shows the expand/collapse state.
    pub toggle_text: String,
    /// Whether there are comments to show or hide.
    pub has_toggle: bool,
    pub comments_class: String,
    pub parent_data: GhEvent,
    /// Individual comment rows.
    pub comment_rows: Vec<CommentRow>,
    /// Whether the comments section is currently expanded.
    pub expanded: bool,
}

/// The contents of a group row.
#[verifier::ext_equal]
pub struct GroupRowModel {
    pub class: Seq<char>,
    pub badge_label: Seq<char>,
    pub badge_flavor: Flavor,
    pub place: Seq<char>,
    pub author: Seq<char>,
    pub preview: Seq<char>,
    pub mark_read_class: Seq<char>,
    pub toggle_class: Seq<char>,
    pub toggle_text: Seq<char>,
    pub has_toggle: bool,
    pub comments_class: Seq<char>,
    pub parent: GhEvent,
    pub comments: Seq<CommentRowModel>,
    pub expanded: bool,
}

impl View for EventGroupRow {
    type V = GroupRowModel;

    open spec fn view(&self) -> GroupRowModel {
        GroupRowModel {
            class: self.class@,
            badge_label: self.badge_label@,
            badge_flavor: self.badge_flavor,
            place: self.place@,
            author: self.author@,
            preview: self.preview@,
            mark_read_class: self.mark_read_class@,
            toggle_class: self.toggle_class@,
            toggle_text: self.toggle_text@,
            has_toggle: self.has_toggle,
            comments_class: self.comments_class@,
            parent: self.parent_data,
            comments: self.comment_rows@.map_values(|c: CommentRow| c@),
            expanded: self.expanded,
        }
    }
}

/// The contents of each row of a list.
pub open spec fn row_models(rows: Seq<EventGroupRow>) -> Seq<GroupRowModel> {
    rows.map_values(|r: EventGroupRow| r@)
}

/// The kind that an event is shown as: a new issue, where its number stands for no kind.
pub open spec fn shown_kind(e: GhEvent) -> EventKind {
    match crate::wire::kind_of_code(e.kind) {
        Ok(kind) => kind,
        Err(_) => EventKind::NewIssue,
    }
}

/// The flavor of the badge for a kind.
pub open spec fn kind_flavor(kind: EventKind) -> Flavor {
    match kind {
        EventKind::NewIssue => Flavor::Success,
        EventKind::NewPullRequest => Flavor::Primary,
        EventKind::NewComment => Flavor::Secondary,
        EventKind::IssueStateChange => Flavor::Warning,
        EventKind::PRStateChange => Flavor::Info,
    }
}

/// A number of comments, in words; nothing for none.
pub open spec fn comment_label(count: nat) -> Seq<char> {
    if count == 0 {
        Seq::empty()
    } else if count == 1 {
        "1 comment"@
    } else {
        crate::text::decimal(count) + " comments"@
    }
}

/// The label of the toggle: the number of comments, and a chevron that points down where they
/// are shown. There is none where there are no comments.
pub open spec fn toggle_label(count: nat, expanded: bool) -> Seq<char> {
    if count == 0 {
        Seq::empty()
    } else if expanded {
        comment_label(count) + " \u{25BC}"@
    } else {
        comment_label(count) + " \u{25B6}"@
    }
}

/// The class of the comments section.
pub open spec fn section_class(expanded: bool) -> Seq<char> {
    if expanded {
        "event-group-comments expanded"@
    } else {
        "event-group-comments"@
    }
}

/// The row of a group, with its comments hidden.
pub open spec fn group_row(g: crate::groups::GroupModel) -> GroupRowModel {
    let e = g.parent;
    GroupRowModel {
        class: if e.read {
            "list-group-item event-item"@
        } else {
            "list-group-item event-item unread"@
        },
        badge_label: crate::wire::kind_label(shown_kind(e)),
        badge_flavor: kind_flavor(shown_kind(e)),
        place: e.repo@ + " #"@ + crate::text::decimal(e.number as nat),
        author: author_text(e),
        preview: preview_text(e.body@, 120),
        mark_read_class: if e.read {
            "btn btn-sm btn-secondary d-none"@
        } else {
            "btn btn-sm btn-secondary"@
        },
        toggle_class: if g.comments.len() > 0 {
            "comment-toggle text-muted"@
        } else {
            "d-none"@
        },
        toggle_text: toggle_label(g.comments.len(), false),
        has_toggle: g.comments.len() > 0,
        comments_class: section_class(false),
        parent: e,
        comments: g.comments.map_values(|c: GhEvent| comment_row(c)),
        expanded: false,
    }
}

/// Whether the bodies of a group can be cut for its row.
pub open spec fn can_show(g: crate::groups::GroupModel) -> bool {
    &&& crate::text::can_shorten(g.parent.body@, 120)
    &&& forall|i: int|
        0 <= i < g.comments.len() ==> crate::text::can_shorten(
            (#[trigger] g.comments[i]).body@,
            100,
        )
}

/// Whether a row's toggle and comments section show its expand/collapse state.
pub open spec fn row_ok(row: GroupRowModel) -> bool {
    &&& row.toggle_text == toggle_label(row.comments.len(), row.expanded)
    &&& row.has_toggle == (row.comments.len() > 0)
    &&& row.comments_class == section_class(row.expanded)
}

/// A row after its toggle was clicked.
pub open spec fn toggled(row: GroupRowModel) -> GroupRowModel {
    GroupRowModel {
        expanded: !row.expanded,
        comments_class: section_class(!row.expanded),
        toggle_text: toggle_label(row.comments.len(), !row.expanded),
        ..row
    }
}

/// A second click on the toggle takes back the first.
pub proof fn toggle_twice(row: GroupRowModel)
    requires
        row_ok(row),
    ensures
        toggled(toggled(row)) == row,
{
}

/// A row begins with its comments hidden, and its toggle shows its state then and after every
/// click.
pub proof fn rows_stay_ok(g: crate::groups::GroupModel, row: GroupRowModel)
    requires
        row_ok(row),
    ensures
        row_ok(group_row(g)),
        !group_row(g).expanded,
        row_ok(toggled(row)),
{
}

fn comment_count_text(count: usize) -> (r: String)
    ensures
        r@ == comment_label(count as nat),
{
    if count == 0 {
        String::new()
    } else if count == 1 {
        "1 comment".to_owned()
    } else {
        let mut r = decimal_text(count as u64);
        r.append(" comments");
        r
    }
}

fn toggle_text(count: usize, expanded: bool) -> (r: String)
    ensures
        r@ == toggle_label(count as nat, expanded),
{
    if count == 0 {
        return String::new();
    }
    let mut r = comment_count_text(count);
    if expanded {
        r.append(" \u{25BC}");
    } else {
        r.append(" \u{25B6}");
    }
    r
}

fn comments_class(expanded: bool) -> (r: String)
    ensures
        r@ == section_class(expanded),
{
    if expanded {
        "event-group-comments expanded".to_owned()
    } else {
        "event-group-comments".to_owned()
    }
}

/// Whether the bodies of a group can be cut for its row.
pub fn showable(group: &EventGroup) -> (r: bool)
    ensures
        r == can_show(group@),
{
    if !shortenable(group.parent.body.as_str(), PARENT_PREVIEW) {
        return false;
    }
    let mut i: usize = 0;
    while i < group.comments.len()
        invariant
            i <= group.comments.len(),
            crate::text::can_shorten(group.parent.body@, 120),
            forall|j: int|
                0 <= j < i ==> crate::text::can_shorten(
                    (#[trigger] group.comments@[j]).body@,
                    100,
                ),
        decreases group.comments.len() - i,
    {
        if !shortenable(group.comments[i].body.as_str(), COMMENT_PREVIEW) {
            assert(!crate::text::can_shorten(group@.comments[i as int].body@, 100));
            return false;
        }
        i = i + 1;
    }
    true
}

impl EventGroupRow {
    /// The row of a group, with its comments hidden.
    pub fn new(group: EventGroup) -> (r: Self)
        requires
            can_show(group@),
        ensures
            r@ == group_row(group@),
    {
        let ghost all = group@;
        let event = group.parent;
        let class = if event.read {
            "list-group-item event-item"
        } else {
            "list-group-item event-item unread"
        };
        let event_kind = match event.kind() {
            Ok(kind) => kind,
            Err(_) => EventKind::NewIssue,
        };
        let badge_flavor = match event_kind {
            EventKind::NewIssue => Flavor::Success,
            EventKind::NewPullRequest => Flavor::Primary,
            EventKind::NewComment => Flavor::Secondary,
            EventKind::IssueStateChange => Flavor::Warning,
            EventKind::PRStateChange => Flavor::Info,
        };
        let mut place = event.repo.clone();
        place.append(" #");
        place.append(decimal_text(event.number).as_str());
        let mark_read_class = if event.read {
            "btn btn-sm btn-secondary d-none"
        } else {
            "btn btn-sm btn-secondary"
        };

        let comments = group.comments;
        let comment_count: usize = comments.len();
        let toggle_class = if comment_count > 0 {
            "comment-toggle text-muted"
        } else {
            "d-none"
        };
        let mut comment_rows: Vec<CommentRow> = Vec::new();
        for comment in it: comments
            invariant
                it.seq() == all.comments,
                can_show(all),
                comment_rows@.len() == it.index(),
                forall|j: int|
                    0 <= j < it.index() ==> (#[trigger] comment_rows@[j])@ == comment_row(
                        all.comments[j],
                    ),
        {
            assert(comment == all.comments[it.index()]);
            comment_rows.push(CommentRow::new(comment));
        }
        assert(comment_rows@.map_values(|c: CommentRow| c@) =~= all.comments.map_values(
            |c: GhEvent| comment_row(c),
        ));

        EventGroupRow {
            class: class.to_owned(),
            badge_label: event_kind.label().to_owned(),
            badge_flavor,
            place,
            author: author_of(&event),
            preview: preview_of(event.body.as_str(), PARENT_PREVIEW),
            mark_read_class: mark_read_class.to_owned(),
            toggle_class: toggle_class.to_owned(),
            toggle_text: toggle_text(comment_count, false),
            has_toggle: comment_count > 0,
            comments_class: comments_class(false),
            parent_data: event,
            comment_rows,
            expanded: false,
        }
    }

    /// Toggle the expanded/collapsed state of the comments section.
    pub fn toggle(&mut self)
        requires
            row_ok(old(self)@),
        ensures
            final(self)@ == toggled(old(self)@),
            row_ok(final(self)@),
    {
        self.expanded = !self.expanded;
        self.comments_class = comments_class(self.expanded);
        if self.has_toggle {
            self.toggle_text = toggle_text(self.comment_rows.len(), self.expanded);
        }
    }
}

/// A body of at most `limit` bytes is shown whole behind a dash; of a longer one, the beginning of
/// just `limit` bytes is shown, and three dots. An empty body is not shown, and no dash either.
pub proof fn previews_show_the_beginning(body: Seq<char>, limit: nat)
    requires
        crate::text::can_shorten(body, limit),
    ensures
        body.len() == 0 ==> preview_text(body, limit).len() == 0,
        0 < body.len() && vstd::utf8::encode_utf8(body).len() <= limit ==> preview_text(body, limit)
            == seq![' ', '\u{2014}', ' '] + body,
        vstd::utf8::encode_utf8(body).len() > limit ==> {
            let k = preview_text(body, limit).len() - 6;
            &&& 0 <= k <= body.len()
            &&& preview_text(body, limit) == seq![' ', '\u{2014}', ' '] + body.take(k)
                + seq!['.', '.', '.']
            &&& vstd::utf8::encode_utf8(body.take(k)).len() == limit
        },
{
    reveal_strlit(" \u{2014} ");
    assert(" \u{2014} "@ =~= seq![' ', '\u{2014}', ' ']);
    crate::text::shortened_is_a_beginning(body, limit);
    if vstd::utf8::encode_utf8(body).len() > limit {
        let shown = crate::text::shortened(body, limit);
        let k = shown.len() - 3;
        assert(preview_text(body, limit) =~= seq![' ', '\u{2014}', ' '] + body.take(k) + seq![
            '.',
            '.',
            '.',
        ]);
        assert(preview_text(body, limit).len() == shown.len() + 3);
    } else if body.len() == 0 {
        assert(crate::text::shortened(body, limit) =~= Seq::empty());
    }
}

/// The row of a comment shows the comment: its author behind an at sign, the first hundred bytes
/// of its body, and by one more class that it is unread.
pub proof fn comment_rows_show_the_comment(e: GhEvent)
    ensures
        comment_row(e).event == e,
        comment_row(e).author == seq!['@'] + e.author@,
        comment_row(e).preview == preview_text(e.body@, 100),
        e.read ==> comment_row(e).class
            == "event-comment-item list-group-item list-group-item-action"@,
        !e.read ==> comment_row(e).class
            == "event-comment-item list-group-item list-group-item-action"@ + " unread"@,
{
    reveal_strlit("@");
    reveal_strlit(" unread");
    reveal_strlit("event-comment-item list-group-item list-group-item-action");
    reveal_strlit("event-comment-item list-group-item list-group-item-action unread");
    assert("@"@ =~= seq!['@']);
    assert("event-comment-item list-group-item list-group-item-action unread"@
        =~= "event-comment-item list-group-item list-group-item-action"@ + " unread"@);
}

/// The row of a group shows its parent: where it stands, its author behind an at sign, and the
/// first hundred and twenty bytes of its body. An unread parent has one more class, and a button
/// to mark it, which is hidden from a read one.
pub proof fn rows_show_their_parent(g: crate::groups::GroupModel)
    ensures
        ({
            let row = group_row(g);
            &&& row.parent == g.parent
            &&& row.place == g.parent.repo@ + " #"@ + crate::text::decimal(g.parent.number as nat)
            &&& row.author == seq!['@'] + g.parent.author@
            &&& row.preview == preview_text(g.parent.body@, 120)
            &&& g.parent.read ==> row.class == "list-group-item event-item"@
            &&& !g.parent.read ==> row.class == "list-group-item event-item"@ + " unread"@
            &&& g.parent.read ==> row.mark_read_class == "btn btn-sm btn-secondary"@ + " d-none"@
            &&& !g.parent.read ==> row.mark_read_class == "btn btn-sm btn-secondary"@
        }),
{
    reveal_strlit("@");
    reveal_strlit(" unread");
    reveal_strlit(" d-none");
    reveal_strlit("list-group-item event-item");
    reveal_strlit("list-group-item event-item unread");
    reveal_strlit("btn btn-sm btn-secondary");
    reveal_strlit("btn btn-sm btn-secondary d-none");
    assert("@"@ =~= seq!['@']);
    assert("list-group-item event-item unread"@ =~= "list-group-item event-item"@ + " unread"@);
    assert("btn btn-sm btn-secondary d-none"@ =~= "btn btn-sm btn-secondary"@ + " d-none"@);
}

/// The badge of a row tells the parent's kind by its number. A number that stands for no kind is
/// shown as a new issue.
pub proof fn badges_tell_the_kind(g: crate::groups::GroupModel)
    ensures
        ({
            let row = group_row(g);
            let kind = g.parent.kind;
            &&& kind == 1 || kind == 4 <==> row.badge_label == "PR"@
            &&& kind == 2 <==> row.badge_label == "Comment"@
            &&& kind == 0 || kind == 3 || kind > 4 <==> row.badge_label == "Issue"@
            &&& kind == 1 <==> row.badge_flavor is Primary
            &&& kind == 2 <==> row.badge_flavor is Secondary
            &&& kind == 3 <==> row.badge_flavor is Warning
            &&& kind == 4 <==> row.badge_flavor is Info
            &&& kind == 0 || kind > 4 <==> row.badge_flavor is Success
        }),
{
    reveal_strlit("PR");
    reveal_strlit("Comment");
    reveal_strlit("Issue");
    assert("PR"@.len() == 2);
    assert("Comment"@.len() == 7);
    assert("Issue"@.len() == 5);
}

/// A row has a row of its own for each comment of its group, in their order. They begin hidden,
/// and there is a toggle exactly if there is a comment.
pub proof fn rows_have_their_comments(g: crate::groups::GroupModel)
    ensures
        ({
            let row = group_row(g);
            &&& row.comments.len() == g.comments.len()
            &&& forall|i: int|
                0 <= i < g.comments.len() ==> #[trigger] row.comments[i] == comment_row(
                    g.comments[i],
                )
            &&& !row.expanded
            &&& row.comments_class == "event-group-comments"@
            &&& row.has_toggle <==> g.comments.len() > 0
            &&& row.toggle_class == if g.comments.len() == 0 {
                "d-none"@
            } else {
                "comment-toggle text-muted"@
            }
            &&& g.comments.len() == 0 ==> row.toggle_text.len() == 0
            &&& g.comments.len() > 0 ==> row.toggle_text == comment_label(g.comments.len()) + seq![
                ' ',
                '\u{25B6}',
            ]
        }),
{
    reveal_strlit(" \u{25B6}");
    assert(" \u{25B6}"@ =~= seq![' ', '\u{25B6}']);
}

/// The number of comments is written before the word, which is in the plural for more than one;
/// there is no text for none.
pub proof fn comments_are_counted_in_words(count: nat)
    ensures
        count == 0 ==> comment_label(count).len() == 0,
        count == 1 ==> comment_label(count) == crate::text::decimal(count) + " comment"@,
        count > 1 ==> comment_label(count) == crate::text::decimal(count) + " comment"@ + seq!['s'],
{
    reveal_strlit("1 comment");
    reveal_strlit(" comment");
    reveal_strlit(" comments");
    assert(crate::text::decimal(1) =~= seq!['1']);
    assert("1 comment"@ =~= seq!['1'] + " comment"@);
    assert(" comments"@ =~= " comment"@ + seq!['s']);
    assert(crate::text::decimal(count) + " comments"@ =~= crate::text::decimal(count)
        + " comment"@ + seq!['s']);
}

/// A click on the toggle turns the row's state round, and with it the class of the comments and
/// the way the chevron points. It changes nothing else.
pub proof fn toggle_turns_the_state(row: GroupRowModel)
    ensures
        ({
            let after = toggled(row);
            &&& after.expanded <==> !row.expanded
            &&& after.comments_class == if after.expanded {
                "event-group-comments"@ + " expanded"@
            } else {
                "event-group-comments"@
            }
            &&& row.comments.len() == 0 ==> after.toggle_text.len() == 0
            &&& row.comments.len() > 0 ==> after.toggle_text == comment_label(row.comments.len())
                + seq![
                ' ',
                if after.expanded {
                    '\u{25BC}'
                } else {
                    '\u{25B6}'
                },
            ]
            &&& after.class == row.class
            &&& after.badge_label == row.badge_label
            &&& after.badge_flavor == row.badge_flavor
            &&& after.place == row.place
            &&& after.author == row.author
            &&& after.preview == row.preview
            &&& after.mark_read_class == row.mark_read_class
            &&& after.toggle_class == row.toggle_class
            &&& after.has_toggle == row.has_toggle
            &&& after.parent == row.parent
            &&& after.comments == row.comments
        }),
{
    reveal_strlit(" \u{25B6}");
    reveal_strlit(" \u{25BC}");
    reveal_strlit(" expanded");
    reveal_strlit("event-group-comments");
    reveal_strlit("event-group-comments expanded");
    assert(" \u{25B6}"@ =~= seq![' ', '\u{25B6}']);
    assert(" \u{25BC}"@ =~= seq![' ', '\u{25BC}']);
    assert("event-group-comments expanded"@ =~= "event-group-comments"@ + " expanded"@);
}

/// A group can be shown exactly if each body can be cut where its preview ends: that of the parent
/// at a hundred and twenty bytes, those of the comments at a hundred.
pub proof fn groups_that_can_be_shown(g: crate::groups::GroupModel)
    ensures
        can_show(g) <==> {
            &&& vstd::utf8::encode_utf8(g.parent.body@).len() <= 120 || exists|k: int|
                0 <= k <= g.parent.body@.len() && #[trigger] vstd::utf8::encode_utf8(
                    g.parent.body@.take(k),
                ).len() == 120
            &&& forall|i: int|
                #![trigger g.comments[i]]
                0 <= i < g.comments.len() ==> {
                    ||| vstd::utf8::encode_utf8(g.comments[i].body@).len() <= 100
                    ||| exists|k: int|
                        0 <= k <= g.comments[i].body@.len() && #[trigger] vstd::utf8::encode_utf8(
                            g.comments[i].body@.take(k),
                        ).len() == 100
                }
        },
{
    crate::text::cut_falls_between_characters(g.parent.body@, 120);
    assert forall|i: int|
        #![trigger g.comments[i]]
        0 <= i < g.comments.len() implies (crate::text::can_shorten(g.comments[i].body@, 100) <==> {
        ||| vstd::utf8::encode_utf8(g.comments[i].body@).len() <= 100
        ||| exists|k: int|
            0 <= k <= g.comments[i].body@.len() && #[trigger] vstd::utf8::encode_utf8(
                g.comments[i].body@.take(k),
            ).len() == 100
    }) by {
        crate::text::cut_falls_between_characters(g.comments[i].body@, 100);
    }
}

/// What a row shows are its fields, with each comment in its place.
pub proof fn rows_are_their_fields(row: EventGroupRow, comment: CommentRow)
    ensures
        row@.class == row.class@,
        row@.badge_label == row.badge_label@,
        row@.badge_flavor == row.badge_flavor,
        row@.place == row.place@,
        row@.author == row.author@,
        row@.preview == row.preview@,
        row@.mark_read_class == row.mark_read_class@,
        row@.toggle_class == row.toggle_class@,
        row@.toggle_text == row.toggle_text@,
        row@.has_toggle == row.has_toggle,
        row@.comments_class == row.comments_class@,
        row@.parent == row.parent_data,
        row@.expanded == row.expanded,
        row@.comments.len() == row.comment_rows@.len(),
        forall|i: int|
            0 <= i < row.comment_rows@.len() ==> #[trigger] row@.comments[i]
                == row.comment_rows@[i]@,
        comment@.class == comment.class@,
        comment@.author == comment.author@,
        comment@.preview == comment.preview@,
        comment@.event == comment.event_data,
{
}

} // verus!
