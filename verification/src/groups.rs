//! Grouping: cluster comments under their parent issue/PR.

use crate::order::{sort_by_time, Timed};
use crate::text::{str_eq, str_less};
use crate::wire::{EventKind, GhEvent};
use vstd::prelude::*;

verus! {

/// A group of events sharing the same (repo, number).
#[derive(Debug)]
pub struct EventGroup {
    /// The parent issue/PR event (or first event if no parent found).
    pub parent: GhEvent,
    /// Comment events, sorted by timestamp ascending.
    pub comments: Vec<GhEvent>,
    /// Most recent timestamp across all events in the group.
    pub latest_timestamp: String,
}

/// The contents of a group.
#[verifier::ext_equal]
pub struct GroupModel {
    pub parent: GhEvent,
    pub comments: Seq<GhEvent>,
    pub latest: Seq<char>,
}

impl View for EventGroup {
    type V = GroupModel;

    open spec fn view(&self) -> GroupModel {
        GroupModel {
            parent: self.parent,
            comments: self.comments@,
            latest: self.latest_timestamp@,
        }
    }
}

/// The contents of each group of a list.
pub open spec fn group_models(groups: Seq<EventGroup>) -> Seq<GroupModel> {
    groups.map_values(|g: EventGroup| g@)
}

impl Timed for GhEvent {
    open spec fn time(&self) -> Seq<char> {
        self.timestamp@
    }

    fn time_text(&self) -> (r: &str) {
        self.timestamp.as_str()
    }
}

impl Timed for EventGroup {
    open spec fn time(&self) -> Seq<char> {
        self.latest_timestamp@
    }

    fn time_text(&self) -> (r: &str) {
        self.latest_timestamp.as_str()
    }
}

/// What the events of a group share.
pub open spec fn key_of(e: GhEvent) -> (Seq<char>, u64) {
    (e.repo@, e.number)
}

/// Whether an event is a comment.
pub open spec fn is_comment(e: GhEvent) -> bool {
    e.kind == crate::wire::kind_code(EventKind::NewComment)
}

/// The keys of events, in the order in which they first appear.
pub open spec fn keys(events: Seq<GhEvent>) -> Seq<(Seq<char>, u64)>
    decreases events.len(),
{
    if events.len() == 0 {
        Seq::empty()
    } else {
        let front = keys(events.drop_last());
        if front.contains(key_of(events.last())) {
            front
        } else {
            front.push(key_of(events.last()))
        }
    }
}

/// The test for a key.
pub open spec fn has_key(key: (Seq<char>, u64)) -> spec_fn(GhEvent) -> bool {
    |e: GhEvent| key_of(e) == key
}

/// The events that have a key, in their order.
pub open spec fn with_key(events: Seq<GhEvent>, key: (Seq<char>, u64)) -> Seq<GhEvent> {
    events.filter(has_key(key))
}

/// The later of two timestamps.
pub open spec fn later_of(a: Seq<char>, b: Seq<char>) -> Seq<char> {
    if crate::text::lex_less(a, b) {
        b
    } else {
        a
    }
}

/// The test for comments.
pub open spec fn comments_only() -> spec_fn(GhEvent) -> bool {
    |e: GhEvent| is_comment(e)
}

/// The test for events that are no comments.
pub open spec fn non_comments_only() -> spec_fn(GhEvent) -> bool {
    |e: GhEvent| !is_comment(e)
}

/// The parent among events that share a key: the first that is no comment, or else the first.
pub open spec fn parent_of(events: Seq<GhEvent>) -> GhEvent {
    let others = events.filter(non_comments_only());
    if others.len() > 0 {
        others[0]
    } else {
        events[0]
    }
}

/// The latest timestamp of events.
pub open spec fn latest_of(events: Seq<GhEvent>) -> Seq<char>
    decreases events.len(),
{
    if events.len() <= 1 {
        events[0].timestamp@
    } else {
        later_of(latest_of(events.drop_last()), events.last().timestamp@)
    }
}

/// The group of events that share a key, with its comments in the order in which they came.
pub open spec fn group_of(events: Seq<GhEvent>) -> GroupModel
    recommends
        events.len() > 0,
{
    GroupModel {
        parent: parent_of(events),
        comments: events.filter(comments_only()),
        latest: latest_of(events),
    }
}

/// A group with its comments by timestamp ascending.
pub open spec fn tidied(g: GroupModel) -> GroupModel {
    GroupModel {
        comments: crate::order::stable_sorted(g.comments, crate::order::earlier::<GhEvent>()),
        ..g
    }
}

/// Groups with more recent activity first.
pub open spec fn more_recent() -> spec_fn(GroupModel, GroupModel) -> bool {
    |a: GroupModel, b: GroupModel| crate::text::lex_less(b.latest, a.latest)
}

/// The groups in the order in which their keys first appear.
pub open spec fn unsorted_groups(events: Seq<GhEvent>) -> Seq<GroupModel> {
    keys(events).map_values(|key: (Seq<char>, u64)| tidied(group_of(with_key(events, key))))
}

/// The groups of events: one for each key, the most recent activity first.
pub open spec fn grouped(events: Seq<GhEvent>) -> Seq<GroupModel> {
    crate::order::stable_sorted(unsorted_groups(events), more_recent())
}

proof fn keys_members(events: Seq<GhEvent>)
    ensures
        keys(events).no_duplicates(),
        forall|i: int|
            0 <= i < events.len() ==> keys(events).contains(key_of(#[trigger] events[i])),
        forall|k: (Seq<char>, u64)|
            #![trigger keys(events).contains(k)]
            keys(events).contains(k) ==> exists|i: int|
                0 <= i < events.len() && key_of(#[trigger] events[i]) == k,
    decreases events.len(),
{
    if events.len() > 0 {
        let front = events.drop_last();
        keys_members(front);
        let ks = keys(front);
        let k = key_of(events.last());
        assert forall|i: int| 0 <= i < events.len() implies keys(events).contains(
            key_of(#[trigger] events[i]),
        ) by {
            if i < front.len() {
                assert(events[i] == front[i]);
                let j = choose|j: int| 0 <= j < ks.len() && ks[j] == key_of(front[i]);
                assert(keys(events)[j] == key_of(events[i]));
            } else if !ks.contains(k) {
                assert(keys(events)[ks.len() as int] == k);
            }
        }
        assert forall|x: (Seq<char>, u64)|
            #![trigger keys(events).contains(x)]
            keys(events).contains(x) implies exists|i: int|
            0 <= i < events.len() && key_of(#[trigger] events[i]) == x by {
            if x == k {
                assert(key_of(events[events.len() - 1]) == x);
            } else {
                let j = choose|j: int| 0 <= j < keys(events).len() && keys(events)[j] == x;
                assert(ks[j] == x);
                assert(ks.contains(x));
                let i = choose|i: int| 0 <= i < front.len() && key_of(#[trigger] front[i]) == x;
                assert(key_of(events[i]) == x);
            }
        }
    }
}

/// Every event has one group, that of its key, and every group has an event.
pub proof fn one_group_per_key(events: Seq<GhEvent>, key: (Seq<char>, u64))
    ensures
        keys(events).no_duplicates(),
        keys(events).contains(key) <==> exists|i: int|
            0 <= i < events.len() && key_of(#[trigger] events[i]) == key,
        grouped(events).len() == keys(events).len(),
        grouped(events).to_multiset() =~= unsorted_groups(events).to_multiset(),
{
    keys_members(events);
    if exists|i: int| 0 <= i < events.len() && key_of(#[trigger] events[i]) == key {
        let i = choose|i: int| 0 <= i < events.len() && key_of(#[trigger] events[i]) == key;
        assert(keys(events).contains(key_of(events[i])));
    }
    more_recent_ranks();
    crate::order::sorted_is_an_ordering(unsorted_groups(events), more_recent());
}

proof fn more_recent_ranks()
    ensures
        crate::order::is_ranking(more_recent()),
{
    let l = more_recent();
    assert forall|a: GroupModel| !#[trigger] l(a, a) by {
        crate::text::lex_irreflexive(a.latest);
    }
    assert forall|a: GroupModel, b: GroupModel, c: GroupModel|
        #![trigger l(a, b), l(b, c)]
        l(a, b) && l(b, c) implies l(a, c) by {
        crate::text::lex_transitive(c.latest, b.latest, a.latest);
    }
    assert forall|a: GroupModel, b: GroupModel, c: GroupModel|
        #![trigger l(b, a), l(c, b)]
        !l(b, a) && !l(c, b) implies !l(c, a) by {
        crate::text::lex_total(a.latest, b.latest);
        crate::text::lex_total(b.latest, c.latest);
        if l(c, a) && crate::text::lex_less(b.latest, a.latest) {
            assert(l(a, b));
        }
        if l(c, a) && crate::text::lex_less(c.latest, b.latest) {
            crate::text::lex_transitive(a.latest, c.latest, b.latest);
        }
    }
}

/// Groups come by most recent activity, the latest first, and the comments of each by timestamp
/// ascending.
pub proof fn groups_are_sorted(events: Seq<GhEvent>)
    ensures
        forall|i: int, j: int|
            0 <= i < j < grouped(events).len() ==> !crate::text::lex_less(
                (#[trigger] grouped(events)[i]).latest,
                (#[trigger] grouped(events)[j]).latest,
            ),
        forall|g: int, i: int, j: int|
            0 <= g < grouped(events).len() && 0 <= i < j < grouped(events)[g].comments.len()
                ==> !crate::text::lex_less(
                (#[trigger] grouped(events)[g].comments[j]).timestamp@,
                (#[trigger] grouped(events)[g].comments[i]).timestamp@,
            ),
{
    let all = unsorted_groups(events);
    let sorted = grouped(events);
    more_recent_ranks();
    crate::order::time_ranks::<GhEvent>();
    crate::order::sorted_is_an_ordering(all, more_recent());
    assert forall|i: int, j: int| 0 <= i < j < sorted.len() implies !crate::text::lex_less(
        (#[trigger] sorted[i]).latest,
        (#[trigger] sorted[j]).latest,
    ) by {
        assert(!more_recent()(sorted[j], sorted[i]));
    }
    assert forall|g: int, i: int, j: int|
        0 <= g < sorted.len() && 0 <= i < j
            < sorted[g].comments.len() implies !crate::text::lex_less(
        (#[trigger] sorted[g].comments[j]).timestamp@,
        (#[trigger] sorted[g].comments[i]).timestamp@,
    ) by {
        broadcast use vstd::seq_lib::group_to_multiset_ensures;

        assert(sorted.to_multiset().count(sorted[g]) > 0) by {
            assert(sorted.contains(sorted[g]));
        }
        assert(all.to_multiset().count(sorted[g]) > 0);
        assert(all.contains(sorted[g]));
        let k = choose|k: int| 0 <= k < all.len() && all[k] == sorted[g];
        let raw = group_of(with_key(events, keys(events)[k])).comments;
        crate::order::sorted_is_an_ordering(raw, crate::order::earlier::<GhEvent>());
        let e = crate::order::earlier::<GhEvent>();
        assert(!e(sorted[g].comments[j], sorted[g].comments[i]));
    }
}

/// The parent of a group is its first event that is no comment.
pub proof fn parent_is_first_non_comment(events: Seq<GhEvent>, at: int)
    requires
        0 <= at < events.len(),
        !is_comment(events[at]),
        forall|i: int| 0 <= i < at ==> is_comment(#[trigger] events[i]),
    ensures
        group_of(events).parent == events[at],
    decreases events.len(),
{
    let front = events.drop_last();
    assert(front.push(events.last()) =~= events);
    front.lemma_filter_push(events.last(), non_comments_only());
    if at < front.len() {
        parent_is_first_non_comment(front, at);
        front.lemma_filter_contains(non_comments_only(), at);
    } else {
        no_other_event(front);
    }
}

proof fn no_other_event(events: Seq<GhEvent>)
    requires
        forall|i: int| 0 <= i < events.len() ==> is_comment(#[trigger] events[i]),
    ensures
        events.filter(non_comments_only()).len() == 0,
{
    let others = events.filter(non_comments_only());
    if others.len() > 0 {
        events.lemma_filter_pred(non_comments_only(), 0);
        assert(others.contains(others[0]));
        events.lemma_filter_contains_rev(non_comments_only(), others[0]);
    }
}

/// The parent of a group of comments alone is the first of them.
pub proof fn parent_of_comments(events: Seq<GhEvent>)
    requires
        events.len() > 0,
        forall|i: int| 0 <= i < events.len() ==> is_comment(#[trigger] events[i]),
    ensures
        group_of(events).parent == events[0],
{
    no_other_event(events);
}

proof fn parent_is_member(events: Seq<GhEvent>)
    requires
        events.len() > 0,
    ensures
        events.contains(group_of(events).parent),
{
    let others = events.filter(non_comments_only());
    if others.len() > 0 {
        assert(others.contains(others[0]));
        events.lemma_filter_contains_rev(non_comments_only(), others[0]);
    } else {
        assert(events.contains(events[0]));
    }
}

/// The comments of a group are its comment events, each as often as it came: in the order in
/// which they came, and then by timestamp ascending.
pub proof fn comments_are_the_comments(events: Seq<GhEvent>)
    ensures
        group_of(events).comments == events.filter(|e: GhEvent| is_comment(e)),
        tidied(group_of(events)).comments.to_multiset() =~= events.filter(
            |e: GhEvent| is_comment(e),
        ).to_multiset(),
        forall|i: int, j: int|
            0 <= i < j < tidied(group_of(events)).comments.len() ==> !crate::text::lex_less(
                (#[trigger] tidied(group_of(events)).comments[j]).timestamp@,
                (#[trigger] tidied(group_of(events)).comments[i]).timestamp@,
            ),
{
    let before = crate::order::earlier::<GhEvent>();
    let sorted = tidied(group_of(events)).comments;
    crate::order::time_ranks::<GhEvent>();
    crate::order::sorted_is_an_ordering(group_of(events).comments, before);
    assert forall|i: int, j: int| 0 <= i < j < sorted.len() implies !crate::text::lex_less(
        (#[trigger] sorted[j]).timestamp@,
        (#[trigger] sorted[i]).timestamp@,
    ) by {
        assert(!before(sorted[j], sorted[i]));
    }
}

/// The group of a repo and a number is that of all events that have both; so its comments are
/// the comments among those events, each as often as it came, and nothing else.
pub proof fn groups_are_whole(events: Seq<GhEvent>, at: int)
    requires
        0 <= at < grouped(events).len(),
    ensures
        ({
            let g = grouped(events)[at];
            let own = with_key(events, key_of(g.parent));
            &&& own.len() > 0
            &&& g == tidied(group_of(own))
            &&& g.comments.to_multiset() =~= own.filter(|e: GhEvent| is_comment(e)).to_multiset()
        }),
{
    broadcast use vstd::seq_lib::group_to_multiset_ensures;

    let all = unsorted_groups(events);
    let sorted = grouped(events);
    more_recent_ranks();
    crate::order::sorted_is_an_ordering(all, more_recent());
    assert(sorted.contains(sorted[at]));
    assert(sorted.to_multiset().count(sorted[at]) > 0);
    assert(all.contains(sorted[at]));
    let k = choose|k: int| 0 <= k < all.len() && all[k] == sorted[at];
    group_has_key(events, k);
    assert(keys(events).contains(keys(events)[k]));
    with_key_len(events, keys(events)[k]);
    comments_are_the_comments(with_key(events, keys(events)[k]));
}

/// The latest timestamp of a group is that of one of its events, and no event of it is later.
pub proof fn latest_is_latest(events: Seq<GhEvent>)
    requires
        events.len() > 0,
    ensures
        forall|i: int|
            0 <= i < events.len() ==> !crate::text::lex_less(
                group_of(events).latest,
                (#[trigger] events[i]).timestamp@,
            ),
        exists|i: int|
            0 <= i < events.len() && (#[trigger] events[i]).timestamp@ == group_of(events).latest,
    decreases events.len(),
{
    let last = events[events.len() - 1];
    if events.len() == 1 {
        crate::text::lex_irreflexive(events[0].timestamp@);
        assert(events[0].timestamp@ == group_of(events).latest);
    } else {
        let front = events.drop_last();
        latest_is_latest(front);
        let a = group_of(front).latest;
        let b = last.timestamp@;
        crate::text::lex_irreflexive(b);
        assert forall|i: int| 0 <= i < events.len() implies !crate::text::lex_less(
            group_of(events).latest,
            (#[trigger] events[i]).timestamp@,
        ) by {
            if i < front.len() {
                let c = front[i].timestamp@;
                assert(!crate::text::lex_less(a, c));
                if crate::text::lex_less(a, b) && crate::text::lex_less(b, c) {
                    crate::text::lex_transitive(a, b, c);
                }
            }
        }
        let i = choose|i: int| 0 <= i < front.len() && (#[trigger] front[i]).timestamp@ == a;
        assert(events[i].timestamp@ == a);
        assert(last.timestamp@ == b);
    }
}

proof fn with_key_push(events: Seq<GhEvent>, e: GhEvent, key: (Seq<char>, u64))
    ensures
        with_key(events.push(e), key) == if key_of(e) == key {
            with_key(events, key).push(e)
        } else {
            with_key(events, key)
        },
{
    events.lemma_filter_push(e, has_key(key));
}

proof fn with_key_len(events: Seq<GhEvent>, key: (Seq<char>, u64))
    ensures
        with_key(events, key).len() > 0 <==> keys(events).contains(key),
        forall|i: int|
            0 <= i < with_key(events, key).len() ==> key_of(#[trigger] with_key(events, key)[i])
                == key,
    decreases events.len(),
{
    reveal(Seq::filter);
    if events.len() > 0 {
        let front = events.drop_last();
        let last = events.last();
        with_key_len(front, key);
        assert(front.push(last) =~= events);
        with_key_push(front, last, key);
        let ks = keys(front);
        if key_of(last) == key {
            if !ks.contains(key) {
                assert(keys(events)[ks.len() as int] == key);
            }
        } else {
            if keys(events).contains(key) {
                let j = choose|j: int| 0 <= j < keys(events).len() && keys(events)[j] == key;
                assert(ks[j] == key);
            }
            if ks.contains(key) {
                let j = choose|j: int| 0 <= j < ks.len() && ks[j] == key;
                assert(keys(events)[j] == key);
            }
        }
    }
}

proof fn latest_of_key(events: Seq<GhEvent>, e: GhEvent, at: int)
    requires
        forall|i: int|
            0 <= i < events.len() ==> crate::text::lex_less(
                (#[trigger] events[i]).timestamp@,
                e.timestamp@,
            ),
        0 <= at < keys(events.push(e)).len(),
    ensures
        ({
            let all = events.push(e);
            let g = group_of(with_key(all, keys(all)[at]));
            if keys(all)[at] == key_of(e) {
                g.latest == e.timestamp@
            } else {
                crate::text::lex_less(g.latest, e.timestamp@)
            }
        }),
{
    let all = events.push(e);
    let key = keys(all)[at];
    assert(keys(all).contains(key));
    with_key_len(all, key);
    let own = with_key(all, key);
    latest_is_latest(own);
    let i = choose|i: int|
        0 <= i < own.len() && (#[trigger] own[i]).timestamp@ == group_of(own).latest;
    with_key_push(events, e, key);
    let rest = with_key(events, key);
    assert forall|j: int| 0 <= j < rest.len() implies events.contains(#[trigger] rest[j]) by {
        assert(rest.contains(rest[j]));
        events.lemma_filter_contains_rev(has_key(key), rest[j]);
    }
    if key == key_of(e) {
        assert(own[rest.len() as int] == e);
        if i < rest.len() {
            assert(rest[i] == own[i]);
            assert(events.contains(rest[i]));
        }
    } else {
        assert(events.contains(rest[i]));
    }
}

/// An event that is later than all others brings its group to the top.
pub proof fn new_activity_bubbles_up(events: Seq<GhEvent>, e: GhEvent)
    requires
        forall|i: int|
            0 <= i < events.len() ==> crate::text::lex_less(
                (#[trigger] events[i]).timestamp@,
                e.timestamp@,
            ),
    ensures
        grouped(events.push(e)).len() > 0,
        grouped(events.push(e))[0] == tidied(group_of(with_key(events.push(e), key_of(e)))),
{
    broadcast use vstd::seq_lib::group_to_multiset_ensures;

    let all = events.push(e);
    let unsorted = unsorted_groups(all);
    let sorted = grouped(all);
    more_recent_ranks();
    crate::order::sorted_is_an_ordering(unsorted, more_recent());
    keys_members(all);
    assert(all[events.len() as int] == e);
    assert(keys(all).contains(key_of(e)));
    let k = choose|k: int| 0 <= k < keys(all).len() && keys(all)[k] == key_of(e);
    latest_of_key(events, e, k);
    let own = unsorted[k];
    assert(unsorted.contains(own));
    assert(sorted.to_multiset().count(own) > 0);
    assert(sorted.contains(own));
    let j = choose|j: int| 0 <= j < sorted.len() && sorted[j] == own;
    let top = sorted[0];
    assert(sorted.contains(top));
    assert(unsorted.to_multiset().count(top) > 0);
    assert(unsorted.contains(top));
    let t = choose|t: int| 0 <= t < unsorted.len() && unsorted[t] == top;
    latest_of_key(events, e, t);
    if keys(all)[t] != key_of(e) {
        crate::text::lex_irreflexive(e.timestamp@);
        assert(j > 0);
        assert(!more_recent()(sorted[j], sorted[0]));
    }
}

fn is_comment_event(e: &GhEvent) -> (r: bool)
    ensures
        r == is_comment(*e),
{
    match e.kind() {
        Ok(kind) => kind == EventKind::NewComment,
        Err(_) => false,
    }
}

/// A group that an event is added to. A comment joins the comments. Another event becomes the
/// parent in place of a comment that stood in for it.
spec fn group_with(g: GroupModel, e: GhEvent) -> GroupModel {
    let latest = later_of(g.latest, e.timestamp@);
    if is_comment(e) {
        GroupModel { parent: g.parent, comments: g.comments.push(e), latest }
    } else if is_comment(g.parent) {
        GroupModel { parent: e, comments: g.comments, latest }
    } else {
        GroupModel { parent: g.parent, comments: g.comments, latest }
    }
}

/// The group that is made for the first event of a key, before the event is added to it.
spec fn fresh_group(e: GhEvent) -> GroupModel {
    GroupModel { parent: e, comments: Seq::empty(), latest: e.timestamp@ }
}

/// Events make their group one after the other.
proof fn group_of_push(events: Seq<GhEvent>, e: GhEvent)
    ensures
        group_of(events.push(e)) == if events.len() == 0 {
            group_with(fresh_group(e), e)
        } else {
            group_with(group_of(events), e)
        },
{
    let others = events.filter(non_comments_only());
    events.lemma_filter_push(e, comments_only());
    events.lemma_filter_push(e, non_comments_only());
    assert(events.push(e).drop_last() =~= events);
    if events.len() == 0 {
        reveal(Seq::filter);
        assert(events.filter(comments_only()) =~= Seq::empty());
        assert(others =~= Seq::empty());
    } else if others.len() > 0 {
        events.lemma_filter_pred(non_comments_only(), 0);
    } else if !is_comment(events[0]) {
        events.lemma_filter_contains(non_comments_only(), 0);
    }
}

fn add_to_group(group: &mut EventGroup, event: GhEvent)
    ensures
        final(group)@ == group_with(old(group)@, event),
{
    if str_less(group.latest_timestamp.as_str(), event.timestamp.as_str()) {
        group.latest_timestamp = event.timestamp.clone();
    }
    if is_comment_event(&event) {
        group.comments.push(event);
    } else if is_comment_event(&group.parent) {
        group.parent = event;
    }
}

fn same_key(a: &GhEvent, b: &GhEvent) -> (r: bool)
    ensures
        r == (key_of(*a) == key_of(*b)),
{
    str_eq(a.repo.as_str(), b.repo.as_str()) && a.number == b.number
}

/// Whether groups are those of the keys of events, in the order of the keys.
spec fn groups_by_key(groups: Seq<EventGroup>, events: Seq<GhEvent>) -> bool {
    &&& groups.len() == keys(events).len()
    &&& forall|j: int|
        0 <= j < groups.len() ==> (#[trigger] groups[j])@ == group_of(
            with_key(events, keys(events)[j]),
        )
}

/// Puts an event into the group of its key.
fn place_event(groups: &mut Vec<EventGroup>, event: GhEvent, Ghost(before): Ghost<Seq<GhEvent>>)
    requires
        groups_by_key(old(groups)@, before),
    ensures
        groups_by_key(final(groups)@, before.push(event)),
{
    let ghost ks = keys(before);
    let ghost key = key_of(event);
    let ghost after = before.push(event);
    let ghost old_groups = groups@;
    proof {
        keys_members(before);
        assert(after.drop_last() =~= before);
    }
    let mut at: usize = 0;
    while at < groups.len() && !same_key(&groups[at].parent, &event)
        invariant
            groups@ == old_groups,
            groups_by_key(old_groups, before),
            at <= groups.len(),
            ks == keys(before),
            key == key_of(event),
            forall|j: int| 0 <= j < at ==> #[trigger] ks[j] != key,
        decreases groups.len() - at,
    {
        proof {
            group_has_key(before, at as int);
        }
        at = at + 1;
    }
    if at < groups.len() {
        proof {
            group_has_key(before, at as int);
        }
        assert(ks[at as int] == key);
        assert(ks.contains(key));
        add_to_group(&mut groups[at], event);
        assert forall|j: int| 0 <= j < groups@.len() implies (#[trigger] groups@[j])@ == group_of(
            with_key(after, keys(after)[j]),
        ) by {
            with_key_push(before, event, ks[j]);
            with_key_len(before, ks[j]);
            if j == at {
                group_of_push(with_key(before, key), event);
            } else {
                assert(ks[j] != ks[at as int]);
            }
        }
    } else {
        assert(!ks.contains(key));
        let mut group = EventGroup {
            parent: event.clone(),
            comments: Vec::new(),
            latest_timestamp: event.timestamp.clone(),
        };
        assert(group@ =~= fresh_group(event));
        add_to_group(&mut group, event);
        groups.push(group);
        assert forall|j: int| 0 <= j < groups@.len() implies (#[trigger] groups@[j])@ == group_of(
            with_key(after, keys(after)[j]),
        ) by {
            if j < ks.len() {
                with_key_push(before, event, ks[j]);
                assert(ks.contains(ks[j]));
            } else {
                with_key_push(before, event, key);
                with_key_len(before, key);
                group_of_push(with_key(before, key), event);
            }
        }
    }
}

proof fn group_has_key(events: Seq<GhEvent>, at: int)
    requires
        0 <= at < keys(events).len(),
    ensures
        key_of(group_of(with_key(events, keys(events)[at])).parent) == keys(events)[at],
{
    let key = keys(events)[at];
    assert(keys(events).contains(key));
    with_key_len(events, key);
    let own = with_key(events, key);
    parent_is_member(own);
    let i = choose|i: int| 0 <= i < own.len() && own[i] == group_of(own).parent;
    assert(key_of(own[i]) == key);
}

/// Group a flat list of events by (repo, number).
///
/// Each group has a parent (the issue/PR event) and zero or more comments.
/// Groups are sorted by most-recent activity descending, so a new comment
/// on an old issue bubbles the group to the top.
pub fn group_events(events: Vec<GhEvent>) -> (r: Vec<EventGroup>)
    ensures
        group_models(r@) == grouped(events@),
{
    let ghost all = events@;
    let mut groups: Vec<EventGroup> = Vec::new();
    for event in it: events
        invariant
            it.seq() == all,
            groups_by_key(groups@, all.take(it.index())),
    {
        let ghost before = all.take(it.index());
        assert(all.take(it.index() + 1) =~= before.push(event));
        place_event(&mut groups, event, Ghost(before));
    }
    assert(all.take(all.len() as int) =~= all);
    let ghost raw = groups@;
    let mut tidy: Vec<EventGroup> = Vec::new();
    for group in it: groups
        invariant
            it.seq() == raw,
            tidy@.len() == it.index(),
            forall|j: int| 0 <= j < it.index() ==> (#[trigger] tidy@[j])@ == tidied(raw[j]@),
    {
        let EventGroup { parent, comments, latest_timestamp } = group;
        let comments = sort_by_time(comments, false);
        tidy.push(EventGroup { parent, comments, latest_timestamp });
    }
    assert(group_models(tidy@) =~= unsorted_groups(all));
    proof {
        crate::order::sorted_map(
            tidy@,
            |g: EventGroup| g@,
            crate::order::by_time::<EventGroup>(true),
            more_recent(),
        );
    }
    sort_by_time(tidy, true)
}

/// The first that appears of a repo and a number makes a key, behind those that were there; what
/// shares both with an earlier event makes none.
pub proof fn keys_come_as_they_appear(events: Seq<GhEvent>, e: GhEvent)
    ensures
        keys(Seq::empty()).len() == 0,
        (exists|i: int|
            0 <= i < events.len() && (#[trigger] events[i]).repo@ == e.repo@ && events[i].number
                == e.number) ==> keys(events.push(e)) == keys(events),
        !(exists|i: int|
            0 <= i < events.len() && (#[trigger] events[i]).repo@ == e.repo@ && events[i].number
                == e.number) ==> keys(events.push(e)) == keys(events).push((e.repo@, e.number)),
{
    assert(events.push(e).drop_last() =~= events);
    one_group_per_key(events, key_of(e));
    if exists|i: int|
        0 <= i < events.len() && (#[trigger] events[i]).repo@ == e.repo@ && events[i].number
            == e.number {
        let i = choose|i: int|
            0 <= i < events.len() && (#[trigger] events[i]).repo@ == e.repo@ && events[i].number
                == e.number;
        assert(key_of(events[i]) == key_of(e));
    } else if keys(events).contains(key_of(e)) {
        let i = choose|i: int| 0 <= i < events.len() && key_of(#[trigger] events[i]) == key_of(e);
        assert(events[i].repo@ == e.repo@);
    }
}

proof fn parent_place(events: Seq<GhEvent>, key: (Seq<char>, u64))
    requires
        with_key(events, key).len() > 0,
    ensures
        ({
            let parent = parent_of(with_key(events, key));
            exists|i: int|
                {
                    &&& 0 <= i < events.len()
                    &&& #[trigger] events[i] == parent
                    &&& forall|j: int|
                        0 <= j < i && (#[trigger] events[j]).repo@ == key.0 && events[j].number
                            == key.1 ==> events[j].kind == 2 && parent.kind != 2
                    &&& parent.kind == 2 ==> forall|j: int|
                        0 <= j < events.len() && (#[trigger] events[j]).repo@ == key.0
                            && events[j].number == key.1 ==> events[j].kind == 2
                }
        }),
    decreases events.len(),
{
    reveal(Seq::filter);
    let front = events.drop_last();
    let e = events.last();
    let own = with_key(front, key);
    assert(front.push(e) =~= events);
    with_key_push(front, e, key);
    with_key_len(front, key);
    one_group_per_key(front, key);
    assert forall|j: int|
        0 <= j < front.len() && (#[trigger] events[j]).repo@ == key.0 && events[j].number
            == key.1 implies own.len() > 0 by {
        assert(key_of(front[j]) == key);
    }
    if key_of(e) == key {
        group_of_push(own, e);
        assert(group_of(own.push(e)).parent == parent_of(own.push(e)));
    }
    if own.len() > 0 {
        parent_place(front, key);
        let parent = parent_of(own);
        assert(group_of(own).parent == parent);
        let i = choose|i: int|
            {
                &&& 0 <= i < front.len()
                &&& #[trigger] front[i] == parent
                &&& forall|j: int|
                    0 <= j < i && (#[trigger] front[j]).repo@ == key.0 && front[j].number
                        == key.1 ==> front[j].kind == 2 && parent.kind != 2
                &&& parent.kind == 2 ==> forall|j: int|
                    0 <= j < front.len() && (#[trigger] front[j]).repo@ == key.0
                        && front[j].number == key.1 ==> front[j].kind == 2
            };
        assert(events[i] == front[i]);
        assert(forall|j: int| 0 <= j < front.len() ==> #[trigger] events[j] == front[j]);
        assert(events[events.len() - 1] == e);
    } else {
        assert(events[events.len() - 1] == e);
        assert(parent_of(with_key(events, key)) == e);
    }
}

/// The test for a repo and a number.
pub open spec fn belongs_to(repo: Seq<char>, number: u64) -> spec_fn(GhEvent) -> bool {
    |e: GhEvent| e.repo@ == repo && e.number == number
}

/// The events of a repo and a number, in their order.
pub open spec fn events_of(events: Seq<GhEvent>, repo: Seq<char>, number: u64) -> Seq<GhEvent> {
    events.filter(belongs_to(repo, number))
}

proof fn events_of_key(events: Seq<GhEvent>, repo: Seq<char>, number: u64)
    ensures
        events_of(events, repo, number) == with_key(events, (repo, number)),
{
    assert(belongs_to(repo, number) =~= has_key((repo, number)));
}

/// A group's parent is the first event of its repo and number that is an issue or PR, or another
/// event that is no comment; only where all of them are comments, it is the first of these.
pub proof fn parents_come_first(events: Seq<GhEvent>, at: int)
    requires
        0 <= at < grouped(events).len(),
    ensures
        ({
            let parent = grouped(events)[at].parent;
            exists|i: int|
                {
                    &&& 0 <= i < events.len()
                    &&& #[trigger] events[i] == parent
                    &&& forall|j: int|
                        0 <= j < i && (#[trigger] events[j]).repo@ == parent.repo@
                            && events[j].number == parent.number ==> events[j].kind == 2
                            && parent.kind != 2
                    &&& parent.kind == 2 ==> forall|j: int|
                        0 <= j < events.len() && (#[trigger] events[j]).repo@ == parent.repo@
                            && events[j].number == parent.number ==> events[j].kind == 2
                }
        }),
{
    groups_are_whole(events, at);
    parent_place(events, key_of(grouped(events)[at].parent));
}

/// A group's comments are the comments among the events of its repo and number, each as often as
/// it came. They stand in the order of their timestamps, and those of one timestamp as they came.
pub proof fn comments_stand_under_their_parent(events: Seq<GhEvent>, at: int, time: Seq<char>)
    requires
        0 <= at < grouped(events).len(),
    ensures
        ({
            let g = grouped(events)[at];
            let own = events_of(events, g.parent.repo@, g.parent.number).filter(
                |e: GhEvent| e.kind == 2,
            );
            &&& g.comments.to_multiset() =~= own.to_multiset()
            &&& g.comments.len() == own.len()
            &&& g.comments.filter(|e: GhEvent| e.timestamp@ == time) == own.filter(
                |e: GhEvent| e.timestamp@ == time,
            )
            &&& forall|i: int, j: int|
                0 <= i < j < g.comments.len() ==> !crate::text::lex_less(
                    (#[trigger] g.comments[j]).timestamp@,
                    (#[trigger] g.comments[i]).timestamp@,
                )
        }),
{
    let g = grouped(events)[at];
    groups_are_whole(events, at);
    groups_are_sorted(events);
    events_of_key(events, g.parent.repo@, g.parent.number);
    let own = with_key(events, key_of(g.parent));
    assert((|e: GhEvent| e.kind == 2) =~= comments_only());
    assert((|e: GhEvent| is_comment(e)) =~= comments_only());
    let raw = own.filter(comments_only());
    let before = crate::order::earlier::<GhEvent>();
    crate::order::time_ranks::<GhEvent>();
    crate::order::sorted_is_an_ordering(raw, before);
    let p = |e: GhEvent| e.timestamp@ == time;
    if exists|i: int| 0 <= i < raw.len() && (#[trigger] raw[i]).timestamp@ == time {
        let k = choose|i: int| 0 <= i < raw.len() && (#[trigger] raw[i]).timestamp@ == time;
        let a = raw[k];
        assert forall|b: GhEvent| #[trigger] crate::order::same_rank(a, before)(b) == p(b) by {
            crate::text::lex_total(a.timestamp@, b.timestamp@);
            crate::text::lex_irreflexive(a.timestamp@);
        }
        assert(crate::order::same_rank(a, before) =~= p);
        crate::order::sorted_is_stable(raw, before, a);
    } else {
        none_pass(raw, p);
        broadcast use vstd::seq_lib::group_to_multiset_ensures;

        assert forall|i: int| 0 <= i < g.comments.len() implies !p(#[trigger] g.comments[i]) by {
            assert(g.comments.contains(g.comments[i]));
            assert(g.comments.to_multiset().count(g.comments[i]) > 0);
            assert(raw.contains(g.comments[i]));
        }
        none_pass(g.comments, p);
        assert(g.comments.filter(p) =~= raw.filter(p));
    }
}

proof fn none_pass(s: Seq<GhEvent>, p: spec_fn(GhEvent) -> bool)
    requires
        forall|i: int| 0 <= i < s.len() ==> !p(#[trigger] s[i]),
    ensures
        s.filter(p).len() == 0,
{
    if s.filter(p).len() > 0 {
        let x = s.filter(p)[0];
        s.lemma_filter_pred(p, 0);
        assert(s.filter(p).contains(x));
        s.lemma_filter_contains_rev(p, x);
    }
}

/// A group's latest timestamp is that of one of the events of its repo and number, and none of
/// them is later.
pub proof fn groups_know_their_latest(events: Seq<GhEvent>, at: int)
    requires
        0 <= at < grouped(events).len(),
    ensures
        ({
            let g = grouped(events)[at];
            &&& forall|i: int|
                0 <= i < events.len() && (#[trigger] events[i]).repo@ == g.parent.repo@
                    && events[i].number == g.parent.number ==> !crate::text::lex_less(
                    g.latest,
                    events[i].timestamp@,
                )
            &&& exists|i: int|
                0 <= i < events.len() && (#[trigger] events[i]).repo@ == g.parent.repo@
                    && events[i].number == g.parent.number && events[i].timestamp@ == g.latest
        }),
{
    let g = grouped(events)[at];
    let key = key_of(g.parent);
    let own = with_key(events, key);
    groups_are_whole(events, at);
    latest_is_latest(own);
    with_key_len(events, key);
    assert forall|i: int|
        0 <= i < events.len() && (#[trigger] events[i]).repo@ == g.parent.repo@
            && events[i].number == g.parent.number implies !crate::text::lex_less(
        g.latest,
        events[i].timestamp@,
    ) by {
        events.lemma_filter_contains(has_key(key), i);
        let k = choose|k: int| 0 <= k < own.len() && own[k] == events[i];
        assert(!crate::text::lex_less(group_of(own).latest, own[k].timestamp@));
    }
    let k = choose|k: int|
        0 <= k < own.len() && (#[trigger] own[k]).timestamp@ == group_of(own).latest;
    assert(own.contains(own[k]));
    events.lemma_filter_contains_rev(has_key(key), own[k]);
    let i = choose|i: int| 0 <= i < events.len() && events[i] == own[k];
    assert(key_of(own[k]) == key);
    assert(events[i].timestamp@ == g.latest);
}

/// Every event has a group of its repo and number.
pub proof fn every_event_has_its_group(events: Seq<GhEvent>, i: int)
    requires
        0 <= i < events.len(),
    ensures
        exists|at: int|
            0 <= at < grouped(events).len() && (#[trigger] grouped(events)[at]).parent.repo@
                == events[i].repo@ && grouped(events)[at].parent.number == events[i].number,
{
    broadcast use vstd::seq_lib::group_to_multiset_ensures;

    let all = unsorted_groups(events);
    let sorted = grouped(events);
    let key = key_of(events[i]);
    one_group_per_key(events, key);
    let k = choose|k: int| 0 <= k < keys(events).len() && keys(events)[k] == key;
    group_has_key(events, k);
    assert(all.contains(all[k]));
    assert(all.to_multiset().count(all[k]) > 0);
    assert(sorted.contains(all[k]));
    let at = choose|at: int| 0 <= at < sorted.len() && sorted[at] == all[k];
    assert(sorted[at].parent.repo@ == events[i].repo@);
}

/// No two groups have the same repo and number.
pub proof fn no_two_groups_share_a_parent(events: Seq<GhEvent>, a: int, b: int)
    requires
        0 <= a < b < grouped(events).len(),
    ensures
        grouped(events)[a].parent.repo@ != grouped(events)[b].parent.repo@
            || grouped(events)[a].parent.number != grouped(events)[b].parent.number,
{
    broadcast use vstd::seq_lib::group_to_multiset_ensures;

    let all = unsorted_groups(events);
    let sorted = grouped(events);
    let key = key_of(sorted[a].parent);
    one_group_per_key(events, key);
    assert forall|i: int, j: int| 0 <= i < j < all.len() implies all[i] != all[j] by {
        group_has_key(events, i);
        group_has_key(events, j);
        assert(keys(events)[i] != keys(events)[j]);
    }
    all.lemma_multiset_has_no_duplicates();
    assert forall|x: GroupModel| sorted.to_multiset().contains(x) implies #[trigger]
        sorted.to_multiset().count(x) == 1 by {
        assert(all.to_multiset().contains(x));
    }
    sorted.lemma_multiset_has_no_duplicates_conv();
    if key == key_of(sorted[b].parent) {
        groups_are_whole(events, a);
        groups_are_whole(events, b);
        assert(sorted[a] == sorted[b]);
    }
}

/// Groups of the same latest timestamp come in the order in which their repo and number first
/// appear among the events.
pub proof fn equal_activity_keeps_the_order(events: Seq<GhEvent>, g: GroupModel)
    ensures
        grouped(events).filter(|h: GroupModel| h.latest == g.latest) == unsorted_groups(
            events,
        ).filter(|h: GroupModel| h.latest == g.latest),
        unsorted_groups(events).len() == keys(events).len(),
        forall|k: int|
            0 <= k < keys(events).len() ==> (#[trigger] unsorted_groups(events)[k]).parent.repo@
                == keys(events)[k].0 && unsorted_groups(events)[k].parent.number
                == keys(events)[k].1,
{
    let before = more_recent();
    let p = |h: GroupModel| h.latest == g.latest;
    more_recent_ranks();
    assert forall|h: GroupModel| #[trigger] crate::order::same_rank(g, before)(h) == p(h) by {
        crate::text::lex_total(g.latest, h.latest);
        crate::text::lex_irreflexive(g.latest);
    }
    assert(crate::order::same_rank(g, before) =~= p);
    crate::order::sorted_is_stable(unsorted_groups(events), before, g);
    assert forall|k: int|
        0 <= k < keys(events).len() implies (#[trigger] unsorted_groups(events)[k]).parent.repo@
        == keys(events)[k].0 && unsorted_groups(events)[k].parent.number == keys(events)[k].1 by {
        group_has_key(events, k);
    }
}

/// The contents of groups are their fields, each group in its place.
pub proof fn groups_are_their_fields(groups: Seq<EventGroup>)
    ensures
        group_models(groups).len() == groups.len(),
        forall|i: int|
            0 <= i < groups.len() ==> {
                let g = #[trigger] group_models(groups)[i];
                &&& g.parent == groups[i].parent
                &&& g.comments == groups[i].comments@
                &&& g.latest == groups[i].latest_timestamp@
            },
{
}

} // verus!
