//! Sorting: sets of strings in order, and stable sorting by time.

use crate::text::{str_eq, str_less};
use vstd::prelude::*;

verus! {

/// The characters of each string of a list.
pub open spec fn texts(s: Seq<String>) -> Seq<Seq<char>> {
    s.map_values(|t: String| t@)
}

/// Whether the strings of `s` stand in strictly ascending order; so none occurs twice.
pub open spec fn strictly_ascending(s: Seq<Seq<char>>) -> bool {
    forall|i: int, j: int|
        0 <= i < j < s.len() ==> crate::text::lex_less(#[trigger] s[i], #[trigger] s[j])
}

/// `s`, which is strictly ascending, with `x` in its place, unless it is there already.
pub open spec fn with_text(s: Seq<Seq<char>>, x: Seq<char>) -> Seq<Seq<char>>
    decreases s.len(),
{
    if s.len() == 0 {
        seq![x]
    } else if s.last() == x {
        s
    } else if crate::text::lex_less(x, s.last()) {
        with_text(s.drop_last(), x).push(s.last())
    } else {
        s.push(x)
    }
}

/// The strings of `s`, each of them once, in ascending order.
pub open spec fn ordered_set(s: Seq<Seq<char>>) -> Seq<Seq<char>>
    decreases s.len(),
{
    if s.len() == 0 {
        Seq::empty()
    } else {
        with_text(ordered_set(s.drop_last()), s.last())
    }
}

proof fn with_text_members(s: Seq<Seq<char>>, x: Seq<char>)
    ensures
        forall|y: Seq<char>| #[trigger]
            with_text(s, x).contains(y) <==> s.contains(y) || y == x,
    decreases s.len(),
{
    if s.len() == 0 {
        assert(with_text(s, x)[0] == x);
    } else if s.last() == x {
        assert(s[s.len() - 1] == x);
    } else if crate::text::lex_less(x, s.last()) {
        with_text_members(s.drop_last(), x);
        let inner = with_text(s.drop_last(), x);
        assert forall|y: Seq<char>| #[trigger]
            with_text(s, x).contains(y) <==> s.contains(y) || y == x by {
            vstd::seq_lib::lemma_seq_contains_after_push(inner, s.last(), y);
            vstd::seq_lib::lemma_seq_contains_after_push(s.drop_last(), s.last(), y);
            assert(s.drop_last().push(s.last()) =~= s);
            assert(inner.contains(y) <==> s.drop_last().contains(y) || y == x);
        }
    } else {
        assert forall|y: Seq<char>| #[trigger]
            with_text(s, x).contains(y) <==> s.contains(y) || y == x by {
            vstd::seq_lib::lemma_seq_contains_after_push(s, x, y);
        }
    }
}

proof fn with_text_ascending(s: Seq<Seq<char>>, x: Seq<char>)
    requires
        strictly_ascending(s),
    ensures
        strictly_ascending(with_text(s, x)),
    decreases s.len(),
{
    if s.len() > 0 && s.last() != x {
        crate::text::lex_total(x, s.last());
        if crate::text::lex_less(x, s.last()) {
            let inner = with_text(s.drop_last(), x);
            with_text_ascending(s.drop_last(), x);
            with_text_members(s.drop_last(), x);
            assert forall|i: int| 0 <= i < inner.len() implies crate::text::lex_less(
                #[trigger] inner[i],
                s.last(),
            ) by {
                assert(inner.contains(inner[i]));
                if inner[i] != x {
                    assert(s.drop_last().contains(inner[i]));
                    let k = choose|k: int|
                        0 <= k < s.drop_last().len() && s.drop_last()[k] == inner[i];
                    assert(crate::text::lex_less(s[k], s[s.len() - 1]));
                }
            }
        } else {
            assert forall|i: int| 0 <= i < s.len() implies crate::text::lex_less(
                #[trigger] s[i],
                x,
            ) by {
                if i < s.len() - 1 {
                    assert(crate::text::lex_less(s[i], s[s.len() - 1]));
                    crate::text::lex_transitive(s[i], s.last(), x);
                }
            }
        }
    }
}

/// An ordered set is strictly ascending, and holds exactly the strings that it was made from.
pub proof fn ordered_set_is_a_set(s: Seq<Seq<char>>)
    ensures
        strictly_ascending(ordered_set(s)),
        forall|y: Seq<char>| #[trigger] ordered_set(s).contains(y) <==> s.contains(y),
    decreases s.len(),
{
    if s.len() > 0 {
        ordered_set_is_a_set(s.drop_last());
        with_text_ascending(ordered_set(s.drop_last()), s.last());
        with_text_members(ordered_set(s.drop_last()), s.last());
        assert forall|y: Seq<char>| #[trigger] ordered_set(s).contains(y) <==> s.contains(y) by {
            vstd::seq_lib::lemma_seq_contains_after_push(s.drop_last(), s.last(), y);
            assert(s.drop_last().push(s.last()) =~= s);
            assert(ordered_set(s.drop_last()).contains(y) <==> s.drop_last().contains(y));
        }
    }
}

/// Puts `x` into its place in an ordered set.
pub fn insert_text(set: &mut Vec<String>, x: String)
    ensures
        texts(final(set)@) == with_text(texts(old(set)@), x@),
{
    let ghost all = texts(set@);
    let mut i: usize = set.len();
    assert(all.take(i as int) =~= all);
    assert(with_text(all, x@) =~= with_text(all, x@) + all.skip(i as int));
    while i > 0 && !str_eq(set[i - 1].as_str(), x.as_str()) && str_less(
        x.as_str(),
        set[i - 1].as_str(),
    )
        invariant
            i <= set.len(),
            all == texts(set@),
            with_text(all, x@) == with_text(all.take(i as int), x@) + all.skip(i as int),
        decreases i,
    {
        assert(all.take(i as int).drop_last() =~= all.take(i - 1));
        assert(all.take(i as int).last() == set@[i - 1]@);
        assert(with_text(all.take(i - 1), x@).push(all[i - 1]) + all.skip(i as int) =~= with_text(
            all.take(i - 1),
            x@,
        ) + all.skip(i - 1));
        i = i - 1;
    }
    if i > 0 {
        assert(all.take(i as int).last() == set@[i - 1]@);
        if str_eq(set[i - 1].as_str(), x.as_str()) {
            assert(all.take(i as int) + all.skip(i as int) =~= all);
            return ;
        }
    }
    set.insert(i, x);
    assert(texts(set@) =~= all.take(i as int).push(x@) + all.skip(i as int));
    assert(seq![x@] =~= Seq::<Seq<char>>::empty().push(x@));
    assert(i == 0 ==> all.take(0) =~= Seq::empty());
}

/// `s`, which is in order, with `x` in its place: behind everything that `x` does not come
/// before.
pub open spec fn with_item<A>(s: Seq<A>, x: A, before: spec_fn(A, A) -> bool) -> Seq<A>
    decreases s.len(),
{
    if s.len() == 0 {
        seq![x]
    } else if before(x, s.last()) {
        with_item(s.drop_last(), x, before).push(s.last())
    } else {
        s.push(x)
    }
}

/// The items of `s` in order; items of which neither comes before the other keep their order.
pub open spec fn stable_sorted<A>(s: Seq<A>, before: spec_fn(A, A) -> bool) -> Seq<A>
    decreases s.len(),
{
    if s.len() == 0 {
        Seq::empty()
    } else {
        with_item(stable_sorted(s.drop_last(), before), s.last(), before)
    }
}

/// Whether no item of `s` comes before one that stands in front of it.
pub open spec fn in_order<A>(s: Seq<A>, before: spec_fn(A, A) -> bool) -> bool {
    forall|i: int, j: int| 0 <= i < j < s.len() ==> !before(#[trigger] s[j], #[trigger] s[i])
}

/// Whether `before` orders items by rank: nothing comes before itself, and what does not come
/// before something that does not come before a third does not come before the third.
pub open spec fn is_ranking<A>(before: spec_fn(A, A) -> bool) -> bool {
    &&& forall|a: A| !#[trigger] before(a, a)
    &&& forall|a: A, b: A, c: A|
        #![trigger before(a, b), before(b, c)]
        before(a, b) && before(b, c) ==> before(a, c)
    &&& forall|a: A, b: A, c: A|
        #![trigger before(b, a), before(c, b)]
        !before(b, a) && !before(c, b) ==> !before(c, a)
}

proof fn with_item_members<A>(s: Seq<A>, x: A, before: spec_fn(A, A) -> bool)
    ensures
        with_item(s, x, before).len() == s.len() + 1,
        with_item(s, x, before).to_multiset() =~= s.to_multiset().insert(x),
        forall|y: A| #[trigger] with_item(s, x, before).contains(y) <==> s.contains(y) || y == x,
    decreases s.len(),
{
    broadcast use vstd::seq_lib::group_to_multiset_ensures;

    if s.len() == 0 {
        assert(seq![x] =~= Seq::<A>::empty().push(x));
        assert(with_item(s, x, before)[0] == x);
        assert(s =~= Seq::empty());
    } else if before(x, s.last()) {
        let inner = with_item(s.drop_last(), x, before);
        with_item_members(s.drop_last(), x, before);
        assert(s.drop_last().push(s.last()) =~= s);
        assert forall|y: A| #[trigger] with_item(s, x, before).contains(y) <==> s.contains(y) || y
            == x by {
            vstd::seq_lib::lemma_seq_contains_after_push(inner, s.last(), y);
            vstd::seq_lib::lemma_seq_contains_after_push(s.drop_last(), s.last(), y);
            assert(inner.contains(y) <==> s.drop_last().contains(y) || y == x);
        }
    } else {
        assert forall|y: A| #[trigger] with_item(s, x, before).contains(y) <==> s.contains(y) || y
            == x by {
            vstd::seq_lib::lemma_seq_contains_after_push(s, x, y);
        }
    }
}

proof fn with_item_in_order<A>(s: Seq<A>, x: A, before: spec_fn(A, A) -> bool)
    requires
        is_ranking(before),
        in_order(s, before),
    ensures
        in_order(with_item(s, x, before), before),
    decreases s.len(),
{
    if s.len() > 0 {
        if before(x, s.last()) {
            let inner = with_item(s.drop_last(), x, before);
            with_item_in_order(s.drop_last(), x, before);
            with_item_members(s.drop_last(), x, before);
            assert forall|i: int| 0 <= i < inner.len() implies !before(
                s.last(),
                #[trigger] inner[i],
            ) by {
                assert(inner.contains(inner[i]));
                if inner[i] == x {
                    if before(s.last(), x) {
                        assert(before(x, x));
                    }
                } else {
                    let k = choose|k: int|
                        0 <= k < s.drop_last().len() && s.drop_last()[k] == inner[i];
                    assert(!before(s[s.len() - 1], s[k]));
                }
            }
        } else {
            assert forall|i: int| 0 <= i < s.len() implies !before(x, #[trigger] s[i]) by {
                if i < s.len() - 1 {
                    assert(!before(s[s.len() - 1], s[i]));
                }
            }
        }
    }
}

/// Sorting loses and adds nothing, and puts the items in order.
pub proof fn sorted_is_an_ordering<A>(s: Seq<A>, before: spec_fn(A, A) -> bool)
    requires
        is_ranking(before),
    ensures
        in_order(stable_sorted(s, before), before),
        stable_sorted(s, before).to_multiset() =~= s.to_multiset(),
        stable_sorted(s, before).len() == s.len(),
    decreases s.len(),
{
    broadcast use vstd::seq_lib::group_to_multiset_ensures;

    if s.len() > 0 {
        sorted_is_an_ordering(s.drop_last(), before);
        with_item_in_order(stable_sorted(s.drop_last(), before), s.last(), before);
        with_item_members(stable_sorted(s.drop_last(), before), s.last(), before);
        assert(s.drop_last().push(s.last()) =~= s);
    }
}

/// The items that have the rank of `a`.
pub open spec fn same_rank<A>(a: A, before: spec_fn(A, A) -> bool) -> spec_fn(A) -> bool {
    |b: A| !before(a, b) && !before(b, a)
}

proof fn with_item_stable<A>(s: Seq<A>, x: A, before: spec_fn(A, A) -> bool, a: A)
    requires
        is_ranking(before),
        in_order(s, before),
    ensures
        with_item(s, x, before).filter(same_rank(a, before)) == s.push(x).filter(
            same_rank(a, before),
        ),
    decreases s.len(),
{
    let p = same_rank(a, before);
    if s.len() == 0 {
        assert(s.push(x) =~= seq![x]);
    } else if before(x, s.last()) {
        let front = s.drop_last();
        with_item_stable(front, x, before, a);
        with_item(front, x, before).lemma_filter_push(s.last(), p);
        front.lemma_filter_push(x, p);
        s.lemma_filter_push(x, p);
        assert(front.push(s.last()) =~= s);
        front.lemma_filter_push(s.last(), p);
        if p(x) && p(s.last()) {
            assert(!before(a, x));
            assert(!before(s.last(), a));
            assert(!before(x, a) && !before(a, s.last()));
            assert(!before(x, s.last()));
        }
    }
}

/// Sorting is stable: items of the same rank come out in the order in which they went in.
pub proof fn sorted_is_stable<A>(s: Seq<A>, before: spec_fn(A, A) -> bool, a: A)
    requires
        is_ranking(before),
    ensures
        stable_sorted(s, before).filter(same_rank(a, before)) == s.filter(same_rank(a, before)),
    decreases s.len(),
{
    if s.len() > 0 {
        let p = same_rank(a, before);
        let front = stable_sorted(s.drop_last(), before);
        sorted_is_an_ordering(s.drop_last(), before);
        sorted_is_stable(s.drop_last(), before, a);
        with_item_stable(front, s.last(), before, a);
        front.lemma_filter_push(s.last(), p);
        s.drop_last().lemma_filter_push(s.last(), p);
        assert(s.drop_last().push(s.last()) =~= s);
    } else {
        assert(s =~= Seq::empty());
    }
}

/// Sorting goes along with a mapping that keeps ranks.
pub proof fn sorted_map<A, B>(
    s: Seq<A>,
    f: spec_fn(A) -> B,
    before: spec_fn(A, A) -> bool,
    before_mapped: spec_fn(B, B) -> bool,
)
    requires
        forall|x: A, y: A| #[trigger] before(x, y) == before_mapped(f(x), f(y)),
    ensures
        stable_sorted(s, before).map_values(f) == stable_sorted(s.map_values(f), before_mapped),
    decreases s.len(),
{
    if s.len() > 0 {
        sorted_map(s.drop_last(), f, before, before_mapped);
        with_item_map(stable_sorted(s.drop_last(), before), s.last(), f, before, before_mapped);
        assert(s.map_values(f).drop_last() =~= s.drop_last().map_values(f));
    } else {
        assert(stable_sorted(s, before).map_values(f) =~= Seq::<B>::empty());
    }
}

proof fn with_item_map<A, B>(
    s: Seq<A>,
    x: A,
    f: spec_fn(A) -> B,
    before: spec_fn(A, A) -> bool,
    before_mapped: spec_fn(B, B) -> bool,
)
    requires
        forall|x: A, y: A| #[trigger] before(x, y) == before_mapped(f(x), f(y)),
    ensures
        with_item(s, x, before).map_values(f) == with_item(s.map_values(f), f(x), before_mapped),
    decreases s.len(),
{
    if s.len() == 0 {
        assert(with_item(s, x, before).map_values(f) =~= seq![f(x)]);
    } else if before(x, s.last()) {
        with_item_map(s.drop_last(), x, f, before, before_mapped);
        assert(s.map_values(f).drop_last() =~= s.drop_last().map_values(f));
        assert(with_item(s.drop_last(), x, before).push(s.last()).map_values(f) =~= with_item(
            s.drop_last(),
            x,
            before,
        ).map_values(f).push(f(s.last())));
    } else {
        assert(s.push(x).map_values(f) =~= s.map_values(f).push(f(x)));
    }
}

/// Something that happened at a time, given as a text whose order is that of time.
pub trait Timed {
    /// The time.
    spec fn time(&self) -> Seq<char>;

    /// The time.
    fn time_text(&self) -> (r: &str)
        ensures
            r@ == self.time(),
    ;
}

/// Earlier things first.
pub open spec fn earlier<T: Timed>() -> spec_fn(T, T) -> bool {
    |a: T, b: T| crate::text::lex_less(a.time(), b.time())
}

/// Later things first.
pub open spec fn later<T: Timed>() -> spec_fn(T, T) -> bool {
    |a: T, b: T| crate::text::lex_less(b.time(), a.time())
}

proof fn lex_not_less_transitive(a: Seq<char>, b: Seq<char>, c: Seq<char>)
    requires
        !crate::text::lex_less(b, a),
        !crate::text::lex_less(c, b),
    ensures
        !crate::text::lex_less(c, a),
{
    crate::text::lex_total(a, b);
    crate::text::lex_total(b, c);
    if crate::text::lex_less(c, a) {
        if crate::text::lex_less(a, b) {
            crate::text::lex_transitive(c, a, b);
        }
    }
}

/// Both orders by time rank things.
pub proof fn time_ranks<T: Timed>()
    ensures
        is_ranking(earlier::<T>()),
        is_ranking(later::<T>()),
{
    let e = earlier::<T>();
    let l = later::<T>();
    assert forall|a: T| !#[trigger] e(a, a) by {
        crate::text::lex_irreflexive(a.time());
    }
    assert forall|a: T| !#[trigger] l(a, a) by {
        crate::text::lex_irreflexive(a.time());
    }
    assert forall|a: T, b: T, c: T|
        #![trigger e(a, b), e(b, c)]
        e(a, b) && e(b, c) implies e(a, c) by {
        crate::text::lex_transitive(a.time(), b.time(), c.time());
    }
    assert forall|a: T, b: T, c: T|
        #![trigger l(a, b), l(b, c)]
        l(a, b) && l(b, c) implies l(a, c) by {
        crate::text::lex_transitive(c.time(), b.time(), a.time());
    }
    assert forall|a: T, b: T, c: T|
        #![trigger e(b, a), e(c, b)]
        !e(b, a) && !e(c, b) implies !e(c, a) by {
        lex_not_less_transitive(a.time(), b.time(), c.time());
    }
    assert forall|a: T, b: T, c: T|
        #![trigger l(b, a), l(c, b)]
        !l(b, a) && !l(c, b) implies !l(c, a) by {
        lex_not_less_transitive(c.time(), b.time(), a.time());
    }
}

/// The order by time, the latest first where `latest_first` says so.
pub open spec fn by_time<T: Timed>(latest_first: bool) -> spec_fn(T, T) -> bool {
    if latest_first {
        later::<T>()
    } else {
        earlier::<T>()
    }
}

fn comes_before<T: Timed>(a: &T, b: &T, latest_first: bool) -> (r: bool)
    ensures
        r == by_time::<T>(latest_first)(*a, *b),
{
    if latest_first {
        str_less(b.time_text(), a.time_text())
    } else {
        str_less(a.time_text(), b.time_text())
    }
}

/// Sorts by time, the latest first where `latest_first` says so; things of the same time keep
/// their order.
pub fn sort_by_time<T: Timed>(items: Vec<T>, latest_first: bool) -> (r: Vec<T>)
    ensures
        r@ == stable_sorted(items@, by_time::<T>(latest_first)),
{
    let ghost before = by_time::<T>(latest_first);
    let ghost all = items@;
    let mut sorted: Vec<T> = Vec::new();
    for item in it: items
        invariant
            it.seq() == all,
            before == by_time::<T>(latest_first),
            sorted@ == stable_sorted(all.take(it.index()), before),
    {
        let ghost s = sorted@;
        let mut i: usize = sorted.len();
        assert(s.take(i as int) =~= s);
        assert(with_item(s, item, before) =~= with_item(s, item, before) + s.skip(i as int));
        while i > 0 && comes_before(&item, &sorted[i - 1], latest_first)
            invariant
                i <= sorted.len(),
                sorted@ == s,
                before == by_time::<T>(latest_first),
                with_item(s, item, before) == with_item(s.take(i as int), item, before) + s.skip(
                    i as int,
                ),
            decreases i,
        {
            assert(s.take(i as int).drop_last() =~= s.take(i - 1));
            assert(s.take(i as int).last() == s[i - 1]);
            assert(with_item(s.take(i - 1), item, before).push(s[i - 1]) + s.skip(i as int)
                =~= with_item(s.take(i - 1), item, before) + s.skip(i - 1));
            i = i - 1;
        }
        if i > 0 {
            assert(s.take(i as int).last() == s[i - 1]);
        } else {
            assert(s.take(0) =~= Seq::empty());
            assert(seq![item] =~= Seq::<T>::empty().push(item));
        }
        sorted.insert(i, item);
        assert(sorted@ =~= s.take(i as int).push(item) + s.skip(i as int));
        assert(all.take(it.index() + 1).drop_last() =~= all.take(it.index()));
    }
    assert(all.take(all.len() as int) =~= all);
    sorted
}

/// An ordered set holds exactly the strings that it was made of, each of them once, and each comes
/// before those behind it.
pub proof fn sets_hold_each_text_once(s: Seq<Seq<char>>, x: Seq<char>)
    ensures
        (exists|i: int| 0 <= i < ordered_set(s).len() && #[trigger] ordered_set(s)[i] == x) <==> (
        exists|i: int| 0 <= i < s.len() && #[trigger] s[i] == x),
        forall|i: int, j: int|
            0 <= i < j < ordered_set(s).len() ==> crate::text::lex_less(
                #[trigger] ordered_set(s)[i],
                #[trigger] ordered_set(s)[j],
            ) && ordered_set(s)[i] != ordered_set(s)[j],
{
    ordered_set_is_a_set(s);
    assert(ordered_set(s).contains(x) <==> s.contains(x));
    assert forall|i: int, j: int| 0 <= i < j < ordered_set(s).len() implies crate::text::lex_less(
        #[trigger] ordered_set(s)[i],
        #[trigger] ordered_set(s)[j],
    ) && ordered_set(s)[i] != ordered_set(s)[j] by {
        crate::text::lex_irreflexive(ordered_set(s)[i]);
    }
}

/// Sorted by time, the earliest or the latest comes first, nothing is lost or added, and what has
/// the same time keeps its order.
pub proof fn sorted_goes_by_time<T: Timed>(items: Seq<T>, latest_first: bool, a: T)
    ensures
        ({
            let sorted = stable_sorted(items, by_time::<T>(latest_first));
            &&& sorted.len() == items.len()
            &&& sorted.to_multiset() =~= items.to_multiset()
            &&& forall|i: int, j: int|
                0 <= i < j < sorted.len() ==> if latest_first {
                    !crate::text::lex_less(
                        (#[trigger] sorted[i]).time(),
                        (#[trigger] sorted[j]).time(),
                    )
                } else {
                    !crate::text::lex_less(sorted[j].time(), sorted[i].time())
                }
            &&& sorted.filter(|b: T| b.time() == a.time()) == items.filter(
                |b: T| b.time() == a.time(),
            )
        }),
{
    let before = by_time::<T>(latest_first);
    time_ranks::<T>();
    sorted_is_an_ordering(items, before);
    sorted_is_stable(items, before, a);
    let p = |b: T| b.time() == a.time();
    assert forall|b: T| #[trigger] same_rank(a, before)(b) == p(b) by {
        crate::text::lex_total(a.time(), b.time());
        crate::text::lex_irreflexive(a.time());
    }
    assert(same_rank(a, before) =~= p);
    let sorted = stable_sorted(items, before);
    assert forall|i: int, j: int| 0 <= i < j < sorted.len() implies if latest_first {
        !crate::text::lex_less((#[trigger] sorted[i]).time(), (#[trigger] sorted[j]).time())
    } else {
        !crate::text::lex_less(sorted[j].time(), sorted[i].time())
    } by {
        assert(!before(sorted[j], sorted[i]));
    }
}

} // verus!
