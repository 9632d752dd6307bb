//! The order of listings: a stable insertion sort as a mathematical
//! function, with the facts that make it a sort.
//!
//! A relation `before(x, y)` says that `x` must be listed strictly ahead of
//! `y`. Rows that tie keep the order in which they were stored.

use vstd::prelude::*;

verus! {

/// Where `x` goes into the sorted sequence `s`: behind the last row that it
/// need not precede.
pub open spec fn insert_position<T>(s: Seq<T>, x: T, before: spec_fn(T, T) -> bool) -> int
    decreases s.len(),
{
    if s.len() > 0 && before(x, s.last()) {
        insert_position(s.drop_last(), x, before)
    } else {
        s.len() as int
    }
}

/// `s` with `x` put at its place.
pub open spec fn insert_sorted<T>(s: Seq<T>, x: T, before: spec_fn(T, T) -> bool) -> Seq<T> {
    s.insert(insert_position(s, x, before), x)
}

/// The rows of `s` in listing order: each row in turn is put at its place
/// among those stored ahead of it.
pub open spec fn sorted_by<T>(s: Seq<T>, before: spec_fn(T, T) -> bool) -> Seq<T>
    decreases s.len(),
{
    if s.len() == 0 {
        Seq::empty()
    } else {
        insert_sorted(sorted_by(s.drop_last(), before), s.last(), before)
    }
}

/// No row of `s` stands behind a row that it must precede.
pub open spec fn is_sorted<T>(s: Seq<T>, before: spec_fn(T, T) -> bool) -> bool {
    forall|a: int, b: int| 0 <= a < b < s.len() ==> !before(#[trigger] s[b], #[trigger] s[a])
}

/// `before` orders rows in ranks: nothing precedes itself, preceding is
/// transitive, and so is not preceding.
pub open spec fn is_ranking<T>(before: spec_fn(T, T) -> bool) -> bool {
    &&& forall|x: T| !#[trigger] before(x, x)
    &&& forall|x: T, y: T, z: T|
        #[trigger] before(x, y) && #[trigger] before(y, z) ==> before(x, z)
    &&& forall|x: T, y: T, z: T|
        !#[trigger] before(x, y) && !#[trigger] before(y, z) ==> !before(x, z)
}

/// The place of `x` lies within `s`; `x` precedes every row from there on,
/// and does not precede the row just ahead of it.
pub proof fn lemma_insert_position<T>(s: Seq<T>, x: T, before: spec_fn(T, T) -> bool)
    ensures
        0 <= insert_position(s, x, before) <= s.len(),
        forall|k: int| insert_position(s, x, before) <= k < s.len() ==> before(x, #[trigger] s[k]),
        insert_position(s, x, before) > 0 ==> !before(x, s[insert_position(s, x, before) - 1]),
    decreases s.len(),
{
    if s.len() > 0 && before(x, s.last()) {
        lemma_insert_position(s.drop_last(), x, before);
        let p = insert_position(s.drop_last(), x, before);
        assert forall|k: int| p <= k < s.len() implies before(x, #[trigger] s[k]) by {
            if k < s.len() - 1 {
                assert(s[k] == s.drop_last()[k]);
            }
        }
    }
}

/// A position from which `x` precedes every row, and ahead of which it does
/// not precede the row, is the place of `x`.
pub proof fn lemma_insert_position_found<T>(
    s: Seq<T>,
    x: T,
    before: spec_fn(T, T) -> bool,
    p: int,
)
    requires
        0 <= p <= s.len(),
        forall|k: int| p <= k < s.len() ==> before(x, #[trigger] s[k]),
        p > 0 ==> !before(x, s[p - 1]),
    ensures
        insert_position(s, x, before) == p,
    decreases s.len(),
{
    if p < s.len() {
        lemma_insert_position_found(s.drop_last(), x, before, p);
    }
}

/// Putting a row at its place keeps a sorted sequence sorted.
pub proof fn lemma_insert_keeps_sorted<T>(s: Seq<T>, x: T, before: spec_fn(T, T) -> bool)
    requires
        is_ranking(before),
        is_sorted(s, before),
    ensures
        is_sorted(insert_sorted(s, x, before), before),
{
    lemma_insert_position(s, x, before);
    let r = insert_sorted(s, x, before);
    assert forall|a: int, b: int| 0 <= a < b < r.len() implies !before(
        #[trigger] r[b],
        #[trigger] r[a],
    ) by {}
}

/// The listing order of any sequence is sorted.
pub proof fn lemma_sorted_by_is_sorted<T>(s: Seq<T>, before: spec_fn(T, T) -> bool)
    requires
        is_ranking(before),
    ensures
        is_sorted(sorted_by(s, before), before),
    decreases s.len(),
{
    if s.len() > 0 {
        lemma_sorted_by_is_sorted(s.drop_last(), before);
        lemma_insert_keeps_sorted(sorted_by(s.drop_last(), before), s.last(), before);
    }
}

/// The listing order holds every row of the sequence exactly as often as the
/// sequence does.
pub proof fn lemma_sorted_by_permutes<T>(s: Seq<T>, before: spec_fn(T, T) -> bool)
    ensures
        sorted_by(s, before).to_multiset() == s.to_multiset(),
        sorted_by(s, before).len() == s.len(),
    decreases s.len(),
{
    if s.len() == 0 {
        assert(sorted_by(s, before) =~= s);
    } else {
        let rest = sorted_by(s.drop_last(), before);
        lemma_sorted_by_permutes(s.drop_last(), before);
        lemma_insert_position(rest, s.last(), before);
        vstd::seq_lib::to_multiset_insert(rest, insert_position(rest, s.last(), before), s.last());
        vstd::seq_lib::to_multiset_build(s.drop_last(), s.last());
        assert(s.drop_last().push(s.last()) =~= s);
    }
}

/// One more row: the listing order of `s` with `x` behind it is the listing
/// order of `s` with `x` put at its place.
pub proof fn lemma_sorted_by_push<T>(s: Seq<T>, x: T, before: spec_fn(T, T) -> bool)
    ensures
        sorted_by(s.push(x), before) == insert_sorted(sorted_by(s, before), x, before),
{
    assert(s.push(x).drop_last() =~= s);
}

} // verus!
