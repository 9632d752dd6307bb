//! Finding a row in a table.

use vstd::prelude::*;

verus! {

/// The position of the first row of `s` that is `wanted`, or the length of
/// `s` where there is none.
pub open spec fn position_where<T>(s: Seq<T>, wanted: spec_fn(T) -> bool) -> int
    decreases s.len(),
{
    if s.len() == 0 {
        0
    } else if wanted(s[0]) {
        0
    } else {
        1 + position_where(s.drop_first(), wanted)
    }
}

/// Whether some row of `s` is `wanted`.
pub open spec fn has_row<T>(s: Seq<T>, wanted: spec_fn(T) -> bool) -> bool {
    position_where(s, wanted) < s.len()
}

/// The position lies within `s` or at its end; the row there is wanted, and
/// no row ahead of it is.
pub proof fn lemma_position_where<T>(s: Seq<T>, wanted: spec_fn(T) -> bool)
    ensures
        0 <= position_where(s, wanted) <= s.len(),
        position_where(s, wanted) < s.len() ==> wanted(s[position_where(s, wanted)]),
        forall|j: int| 0 <= j < position_where(s, wanted) ==> !wanted(#[trigger] s[j]),
    decreases s.len(),
{
    if s.len() > 0 && !wanted(s[0]) {
        lemma_position_where(s.drop_first(), wanted);
        let p = position_where(s.drop_first(), wanted);
        assert forall|j: int| 0 <= j < p + 1 implies !wanted(#[trigger] s[j]) by {
            if j > 0 {
                assert(s[j] == s.drop_first()[j - 1]);
            }
        }
    }
}

/// A position with a wanted row and none ahead of it, or the end where no row
/// is wanted, is the position.
pub proof fn lemma_position_found<T>(s: Seq<T>, wanted: spec_fn(T) -> bool, i: int)
    requires
        0 <= i <= s.len(),
        i < s.len() ==> wanted(s[i]),
        forall|j: int| 0 <= j < i ==> !wanted(#[trigger] s[j]),
    ensures
        position_where(s, wanted) == i,
    decreases s.len(),
{
    if i > 0 {
        lemma_position_found(s.drop_first(), wanted, i - 1);
    }
}

/// A wanted row at any position shows that the table has such a row.
pub proof fn lemma_has_row<T>(s: Seq<T>, wanted: spec_fn(T) -> bool, i: int)
    requires
        0 <= i < s.len(),
        wanted(s[i]),
    ensures
        has_row(s, wanted),
{
    lemma_position_where(s, wanted);
}

/// The rows of `s` that are `wanted`, in their order.
pub open spec fn rows_where<T>(s: Seq<T>, wanted: spec_fn(T) -> bool) -> Seq<T>
    decreases s.len(),
{
    if s.len() == 0 {
        Seq::empty()
    } else if wanted(s.last()) {
        rows_where(s.drop_last(), wanted).push(s.last())
    } else {
        rows_where(s.drop_last(), wanted)
    }
}

/// One more row: it is kept where it is wanted.
pub proof fn lemma_rows_where_push<T>(s: Seq<T>, x: T, wanted: spec_fn(T) -> bool)
    ensures
        rows_where(s.push(x), wanted) == if wanted(x) {
            rows_where(s, wanted).push(x)
        } else {
            rows_where(s, wanted)
        },
{
    assert(s.push(x).drop_last() =~= s);
}

/// Every row that is kept is wanted and is a row of the table, and no more
/// rows are kept than the table has.
pub proof fn lemma_rows_where_members<T>(s: Seq<T>, wanted: spec_fn(T) -> bool)
    ensures
        rows_where(s, wanted).len() <= s.len(),
        forall|k: int|
            0 <= k < rows_where(s, wanted).len() ==> wanted(#[trigger] rows_where(s, wanted)[k])
                && s.contains(rows_where(s, wanted)[k]),
    decreases s.len(),
{
    if s.len() > 0 {
        lemma_rows_where_members(s.drop_last(), wanted);
    }
}

/// Where no row is wanted, none is kept.
pub proof fn lemma_rows_where_none<T>(s: Seq<T>, wanted: spec_fn(T) -> bool)
    requires
        forall|i: int| 0 <= i < s.len() ==> !wanted(#[trigger] s[i]),
    ensures
        rows_where(s, wanted) == Seq::<T>::empty(),
    decreases s.len(),
{
    if s.len() > 0 {
        lemma_rows_where_none(s.drop_last(), wanted);
    }
}

/// Keeping the rows that are wanted by `inner` from among those that are
/// wanted by `outer` is keeping the rows wanted by `inner`, where every row
/// wanted by `inner` is wanted by `outer`.
pub proof fn lemma_rows_where_nested<T>(s: Seq<T>, outer: spec_fn(T) -> bool, inner: spec_fn(T) -> bool)
    requires
        forall|x: T| #[trigger] inner(x) ==> outer(x),
    ensures
        rows_where(rows_where(s, outer), inner) == rows_where(s, inner),
    decreases s.len(),
{
    if s.len() > 0 {
        lemma_rows_where_nested(s.drop_last(), outer, inner);
        if outer(s.last()) {
            lemma_rows_where_push(rows_where(s.drop_last(), outer), s.last(), inner);
        }
    }
}

} // verus!
