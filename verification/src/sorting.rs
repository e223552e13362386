//! Ordering warnings by their start time, earliest first, without changing
//! the order of warnings that start together.

use crate::warning::Warning;
use vstd::prelude::*;
use vstd::seq_lib::{to_multiset_build, to_multiset_insert};

verus! {

/// No warning starts before one that stands earlier in the sequence.
pub open spec fn starts_ascending(s: Seq<Warning>) -> bool {
    forall|i: int, j: int| 0 <= i <= j < s.len() ==> s[i].start@ <= s[j].start@
}

/// The test for a warning that starts at `t`.
pub open spec fn starts_at(t: int) -> spec_fn(Warning) -> bool {
    |w: Warning| w.start@ == t
}

/// The warnings of `s` that start at `t`, in the order they have in `s`.
pub open spec fn starting_at(s: Seq<Warning>, t: int) -> Seq<Warning> {
    s.filter(starts_at(t))
}

/// `sorted` holds the warnings of `given`, each as often as `given` holds it,
/// by ascending start, and those that start together stand as they stood in
/// `given`.
pub open spec fn is_stable_sort_of(sorted: Seq<Warning>, given: Seq<Warning>) -> bool {
    &&& sorted.len() == given.len()
    &&& sorted.to_multiset() == given.to_multiset()
    &&& starts_ascending(sorted)
    &&& forall|t: int| #[trigger] starting_at(sorted, t) == starting_at(given, t)
}

/// Putting `w` into an ascending sequence behind everything that starts no
/// later, and before everything that starts later, keeps every group of
/// warnings with a common start in order, with `w` last in its own.
proof fn lemma_insert_keeps_groups(s: Seq<Warning>, pos: int, w: Warning, t: int)
    requires
        0 <= pos <= s.len(),
        forall|j: int| pos <= j < s.len() ==> s[j].start@ > w.start@,
    ensures
        starting_at(s.insert(pos, w), t) == if w.start@ == t {
            starting_at(s, t).push(w)
        } else {
            starting_at(s, t)
        },
{
    let pred = starts_at(t);
    let front = s.subrange(0, pos);
    let back = s.subrange(pos, s.len() as int);
    assert(s =~= front + back);
    Seq::filter_distributes_over_add(front, back, pred);
    Seq::filter_distributes_over_add(front.push(w), back, pred);
    front.lemma_filter_push(w, pred);
    if w.start@ == t {
        assert(back.all(|x: Warning| !pred(x)));
        back.lemma_all_neg_filter_empty(pred);
        assert(back.filter(pred) =~= Seq::<Warning>::empty());
        assert(front.filter(pred).push(w) + back.filter(pred) =~= (front.filter(pred)
            + back.filter(pred)).push(w));
    }
}

/// A warning put at the end joins the group of its own start, as its last,
/// and leaves the other groups as they were.
proof fn lemma_groups_of_push(s: Seq<Warning>, w: Warning, t: int)
    ensures
        starting_at(s.push(w), t) == if w.start@ == t {
            starting_at(s, t).push(w)
        } else {
            starting_at(s, t)
        },
{
    s.lemma_filter_push(w, starts_at(t));
}

/// Sorting neither makes nor changes a warning: each one of the sorted
/// sequence stands in the given one.
pub proof fn lemma_sorted_members(sorted: Seq<Warning>, given: Seq<Warning>, i: int)
    requires
        is_stable_sort_of(sorted, given),
        0 <= i < sorted.len(),
    ensures
        given.contains(sorted[i]),
{
    let t = sorted[i].start@;
    assert(starting_at(sorted, t) == starting_at(given, t));
    sorted.lemma_filter_contains(starts_at(t), i);
    given.lemma_filter_contains_rev(starts_at(t), sorted[i]);
}

/// Taking the last warning off a sequence takes it off the group of its own
/// start and leaves the other groups as they were.
proof fn lemma_groups_of_drop_last(s: Seq<Warning>, t: int)
    requires
        s.len() > 0,
    ensures
        starting_at(s, t) == if s.last().start@ == t {
            starting_at(s.drop_last(), t).push(s.last())
        } else {
            starting_at(s.drop_last(), t)
        },
{
    assert(s =~= s.drop_last().push(s.last()));
    lemma_groups_of_push(s.drop_last(), s.last(), t);
}

/// In an ascending sequence that holds `w`, the last warning starts no
/// earlier than `w`.
proof fn lemma_last_starts_latest(s: Seq<Warning>, w: Warning)
    requires
        starts_ascending(s),
        s.contains(w),
    ensures
        s.len() > 0,
        w.start@ <= s.last().start@,
{
    let j = choose|j: int| 0 <= j < s.len() && s[j] == w;
    assert(s[j].start@ <= s[s.len() - 1].start@);
}

/// A sequence has one stable sort only: two sequences that both are stable
/// sorts of `given` are equal.
pub proof fn lemma_stable_sort_unique(a: Seq<Warning>, b: Seq<Warning>, given: Seq<Warning>)
    requires
        is_stable_sort_of(a, given),
        is_stable_sort_of(b, given),
    ensures
        a == b,
{
    assert forall|t: int| #[trigger] starting_at(a, t) == starting_at(b, t) by {
        assert(starting_at(a, t) == starting_at(given, t));
        assert(starting_at(b, t) == starting_at(given, t));
    }
    lemma_same_groups_same_order(a, b);
}

/// Two ascending sequences of one length whose groups of warnings with a
/// common start agree are equal.
proof fn lemma_same_groups_same_order(a: Seq<Warning>, b: Seq<Warning>)
    requires
        a.len() == b.len(),
        starts_ascending(a),
        starts_ascending(b),
        forall|t: int| #[trigger] starting_at(a, t) == starting_at(b, t),
    ensures
        a == b,
    decreases a.len(),
{
    if a.len() == 0 {
        assert(a =~= b);
    } else {
        let x = a.last();
        let y = b.last();
        let n = a.len() as int;
        assert(x.start@ == y.start@ && x == y) by {
            assert(starting_at(a, x.start@) == starting_at(b, x.start@));
            assert(starting_at(a, y.start@) == starting_at(b, y.start@));
            a.lemma_filter_contains(starts_at(x.start@), n - 1);
            b.lemma_filter_contains_rev(starts_at(x.start@), x);
            lemma_last_starts_latest(b, x);
            b.lemma_filter_contains(starts_at(y.start@), n - 1);
            a.lemma_filter_contains_rev(starts_at(y.start@), y);
            lemma_last_starts_latest(a, y);
            lemma_groups_of_drop_last(a, x.start@);
            lemma_groups_of_drop_last(b, x.start@);
            assert(starting_at(a, x.start@).last() == x);
            assert(starting_at(b, x.start@).last() == y);
        }
        let a0 = a.drop_last();
        let b0 = b.drop_last();
        assert forall|t: int| #[trigger] starting_at(a0, t) == starting_at(b0, t) by {
            assert(starting_at(a, t) == starting_at(b, t));
            lemma_groups_of_drop_last(a, t);
            lemma_groups_of_drop_last(b, t);
            if x.start@ == t {
                assert(starting_at(a0, t) =~= starting_at(a0, t).push(x).drop_last());
                assert(starting_at(b0, t) =~= starting_at(b0, t).push(y).drop_last());
            }
        }
        assert(starts_ascending(a0)) by {
            assert forall|i: int, j: int| 0 <= i <= j < a0.len() implies a0[i].start@
                <= a0[j].start@ by {
                assert(a[i].start@ <= a[j].start@);
            }
        }
        assert(starts_ascending(b0)) by {
            assert forall|i: int, j: int| 0 <= i <= j < b0.len() implies b0[i].start@
                <= b0[j].start@ by {
                assert(b[i].start@ <= b[j].start@);
            }
        }
        lemma_same_groups_same_order(a0, b0);
        assert(a =~= a0.push(x));
        assert(b =~= b0.push(y));
    }
}

/// Sorts the warnings by start time, earliest first. Warnings with the same
/// start keep their order.
pub fn sort_by_start(warnings: Vec<Warning>) -> (sorted: Vec<Warning>)
    ensures
        is_stable_sort_of(sorted@, warnings@),
{
    let ghost given = warnings@;
    let mut sorted: Vec<Warning> = Vec::new();
    proof {
        assert(given.take(0) =~= Seq::<Warning>::empty());
    }
    for w in it: warnings
        invariant
            it.seq() == given,
            sorted@.len() == it.index(),
            sorted@.to_multiset() == given.take(it.index() as int).to_multiset(),
            starts_ascending(sorted@),
            forall|t: int| #[trigger]
                starting_at(sorted@, t) == starting_at(given.take(it.index() as int), t),
    {
        let key: i64 = w.start.millis();
        let mut pos: usize = sorted.len();
        while pos > 0 && sorted[pos - 1].start.millis() > key
            invariant
                pos <= sorted@.len(),
                key as int == w.start@,
                forall|j: int| pos <= j < sorted@.len() ==> sorted@[j].start@ > key,
            decreases pos,
        {
            pos = pos - 1;
        }
        proof {
            let before = sorted@;
            let after = before.insert(pos as int, w);
            let k = it.index() as int;
            before.insert_ensures(pos as int, w);
            to_multiset_insert(before, pos as int, w);
            to_multiset_build(given.take(k), w);
            assert(given.take(k + 1) =~= given.take(k).push(w));
            assert forall|t: int| #[trigger]
                starting_at(after, t) == starting_at(given.take(k + 1), t) by {
                lemma_insert_keeps_groups(before, pos as int, w, t);
                lemma_groups_of_push(given.take(k), w, t);
            }
            assert(starts_ascending(after)) by {
                assert forall|i: int, j: int| 0 <= i <= j < after.len() implies after[i].start@
                    <= after[j].start@ by {
                    if pos > 0 {
                        assert(before[pos - 1].start@ <= key);
                    }
                    if i < pos && j > pos {
                        assert(after[j] == before[j - 1]);
                    }
                    if i > pos {
                        assert(after[i] == before[i - 1]);
                        assert(after[j] == before[j - 1]);
                    }
                }
            }
        }
        sorted.insert(pos, w);
    }
    proof {
        assert(given.take(given.len() as int) =~= given);
    }
    sorted
}

} // verus!
