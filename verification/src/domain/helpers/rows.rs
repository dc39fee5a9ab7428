//! Rows of a read-model table: finding the first row that meets a
//! condition, and keeping the rows that meet one.

use vstd::prelude::*;

verus! {

/// The place of the first row that meets the condition, if one does.
pub open spec fn first_where<R>(rows: Seq<R>, wanted: spec_fn(R) -> bool) -> Option<int>
    decreases rows.len(),
{
    if rows.len() == 0 {
        None
    } else {
        match first_where(rows.drop_last(), wanted) {
            Some(i) => Some(i),
            None => if wanted(rows.last()) {
                Some(rows.len() - 1)
            } else {
                None
            },
        }
    }
}

/// The rows that meet the condition, in their order.
pub open spec fn kept_where<R>(rows: Seq<R>, keep: spec_fn(R) -> bool) -> Seq<R>
    decreases rows.len(),
{
    if rows.len() == 0 {
        Seq::empty()
    } else {
        let front = kept_where(rows.drop_last(), keep);
        if keep(rows.last()) {
            front.push(rows.last())
        } else {
            front
        }
    }
}

/// `first_where` finds the first row that meets the condition, and only
/// such a row.
pub proof fn lemma_first_where<R>(rows: Seq<R>, wanted: spec_fn(R) -> bool)
    ensures
        match first_where(rows, wanted) {
            Some(i) => {
                &&& 0 <= i < rows.len()
                &&& wanted(rows[i])
                &&& forall|j: int| 0 <= j < i ==> !wanted(#[trigger] rows[j])
            },
            None => forall|j: int| 0 <= j < rows.len() ==> !wanted(#[trigger] rows[j]),
        },
    decreases rows.len(),
{
    if rows.len() > 0 {
        let front = rows.drop_last();
        lemma_first_where(front, wanted);
        match first_where(front, wanted) {
            Some(i) => {
                assert(forall|j: int| 0 <= j < i ==> #[trigger] rows[j] == front[j]);
            },
            None => {
                assert(forall|j: int| 0 <= j < rows.len() - 1 ==> #[trigger] rows[j] == front[j]);
            },
        }
    }
}

/// A row that meets the condition, before which none does, is the one that
/// `first_where` finds.
pub proof fn lemma_first_where_is<R>(rows: Seq<R>, wanted: spec_fn(R) -> bool, i: int)
    requires
        0 <= i < rows.len(),
        wanted(rows[i]),
        forall|j: int| 0 <= j < i ==> !wanted(#[trigger] rows[j]),
    ensures
        first_where(rows, wanted) == Some(i),
{
    lemma_first_where(rows, wanted);
}

/// Every row that is kept meets the condition and was there before.
pub proof fn lemma_kept_where<R>(rows: Seq<R>, keep: spec_fn(R) -> bool)
    ensures
        kept_where(rows, keep).len() <= rows.len(),
        forall|k: int|
            0 <= k < kept_where(rows, keep).len() ==> keep(#[trigger] kept_where(rows, keep)[k])
                && rows.contains(kept_where(rows, keep)[k]),
        (forall|j: int| 0 <= j < rows.len() ==> keep(#[trigger] rows[j])) ==> kept_where(
            rows,
            keep,
        ) == rows,
    decreases rows.len(),
{
    if rows.len() > 0 {
        let front_rows = rows.drop_last();
        lemma_kept_where(front_rows, keep);
        let front = kept_where(front_rows, keep);
        let all = kept_where(rows, keep);
        assert forall|k: int| 0 <= k < all.len() implies keep(#[trigger] all[k]) && rows.contains(
            all[k],
        ) by {
            if k < front.len() {
                assert(all[k] == front[k]);
                let w = choose|w: int| 0 <= w < front_rows.len() && front_rows[w] == front[k];
                assert(rows[w] == front[k]);
            } else {
                assert(rows[rows.len() - 1] == all[k]);
            }
        }
        if forall|j: int| 0 <= j < rows.len() ==> keep(#[trigger] rows[j]) {
            assert(forall|j: int| 0 <= j < front_rows.len() ==> front_rows[j] == rows[j]);
            assert(keep(rows[rows.len() - 1]));
            assert(all =~= rows);
        }
    }
}

/// Keeping by the same condition twice keeps what keeping once keeps.
pub proof fn lemma_kept_where_twice<R>(rows: Seq<R>, keep: spec_fn(R) -> bool)
    ensures
        kept_where(kept_where(rows, keep), keep) == kept_where(rows, keep),
{
    lemma_kept_where(rows, keep);
    lemma_kept_where(kept_where(rows, keep), keep);
}

} // verus!
