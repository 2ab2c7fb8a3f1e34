//! Stable insertion order: how `slice::sort_by` arranges a sequence, as a
//! specification the sorting loops are proved against.

use vstd::prelude::*;

verus! {

/// The first position at or after `i` whose element `x` must precede.
pub open spec fn insert_position<T>(s: Seq<T>, x: T, before: spec_fn(T, T) -> bool, i: int) -> int
    decreases s.len() - i,
{
    if i < 0 || i >= s.len() {
        s.len() as int
    } else if before(x, s[i]) {
        i
    } else {
        insert_position(s, x, before, i + 1)
    }
}

/// `x` inserted into `s` after every element it does not precede.
pub open spec fn insert_sorted<T>(s: Seq<T>, x: T, before: spec_fn(T, T) -> bool) -> Seq<T> {
    s.insert(insert_position(s, x, before, 0), x)
}

/// `s` sorted by `before`, equal elements keeping their order: each
/// element in turn inserted after those it does not precede.
pub open spec fn sorted_by<T>(s: Seq<T>, before: spec_fn(T, T) -> bool) -> Seq<T>
    decreases s.len(),
{
    if s.len() == 0 {
        Seq::empty()
    } else {
        insert_sorted(sorted_by(s.drop_last(), before), s.last(), before)
    }
}

pub proof fn lemma_insert_position_bounds<T>(s: Seq<T>, x: T, before: spec_fn(T, T) -> bool, i: int)
    requires
        0 <= i <= s.len(),
    ensures
        i <= insert_position(s, x, before, i) <= s.len(),
        forall|j: int| i <= j < insert_position(s, x, before, i) ==> !before(x, #[trigger] s[j]),
        insert_position(s, x, before, i) < s.len() ==> before(
            x,
            s[insert_position(s, x, before, i)],
        ),
    decreases s.len() - i,
{
    if i < s.len() && !before(x, s[i]) {
        lemma_insert_position_bounds(s, x, before, i + 1);
    }
}

/// Sorting keeps the length.
pub proof fn lemma_sorted_by_len<T>(s: Seq<T>, before: spec_fn(T, T) -> bool)
    ensures
        sorted_by(s, before).len() == s.len(),
    decreases s.len(),
{
    if s.len() > 0 {
        lemma_sorted_by_len(s.drop_last(), before);
        lemma_insert_position_bounds(sorted_by(s.drop_last(), before), s.last(), before, 0);
    }
}

/// Sorting rearranges: it keeps every element, as often as it occurs.
pub proof fn lemma_sorted_by_permutes<T>(s: Seq<T>, before: spec_fn(T, T) -> bool)
    ensures
        sorted_by(s, before).to_multiset() == s.to_multiset(),
    decreases s.len(),
{
    broadcast use vstd::seq_lib::group_to_multiset_ensures;

    if s.len() > 0 {
        let rest = sorted_by(s.drop_last(), before);
        lemma_sorted_by_permutes(s.drop_last(), before);
        lemma_insert_position_bounds(rest, s.last(), before, 0);
        let p = insert_position(rest, s.last(), before, 0);
        vstd::seq_lib::to_multiset_insert(rest, p, s.last());
        vstd::seq_lib::to_multiset_build(s.drop_last(), s.last());
        assert(s =~= s.drop_last().push(s.last()));
    }
}

/// When `before` is a strict order (irreflexive and transitive), the
/// sorted sequence never has an element before an earlier one.
pub proof fn lemma_sorted_by_sorted<T>(s: Seq<T>, before: spec_fn(T, T) -> bool)
    requires
        forall|a: T| !#[trigger] before(a, a),
        forall|a: T, b: T, c: T| #[trigger] before(a, b) && #[trigger] before(b, c) ==> before(a, c),
    ensures
        forall|i: int, j: int|
            0 <= i < j < sorted_by(s, before).len() ==> !before(
                sorted_by(s, before)[j],
                sorted_by(s, before)[i],
            ),
    decreases s.len(),
{
    if s.len() > 0 {
        let rest = sorted_by(s.drop_last(), before);
        let x = s.last();
        lemma_sorted_by_sorted(s.drop_last(), before);
        lemma_insert_position_bounds(rest, x, before, 0);
        let p = insert_position(rest, x, before, 0);
        let out = rest.insert(p, x);
        assert forall|i: int, j: int| 0 <= i < j < out.len() implies !before(out[j], out[i]) by {
            if j < p {
                assert(out[i] == rest[i] && out[j] == rest[j]);
            } else if j == p {
                assert(out[i] == rest[i]);
                assert(!before(x, rest[i]));
            } else if i == p {
                assert(out[j] == rest[j - 1]);
                if j - 1 > p {
                    assert(!before(rest[j - 1], rest[p]));
                }
                assert(before(x, rest[p]));
                if before(rest[j - 1], x) {
                    assert(before(rest[j - 1], rest[p]));
                }
            } else if i < p {
                assert(out[i] == rest[i] && out[j] == rest[j - 1]);
            } else {
                assert(out[i] == rest[i - 1] && out[j] == rest[j - 1]);
            }
        }
    }
}

} // verus!
