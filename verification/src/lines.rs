//! Line clearing: which rows are complete, and what the board looks like
//! once they are gone.
use vstd::prelude::*;
use crate::cells::{GridCell, GridCellType, void_cell};
use crate::shapes::COL_COUNT;
use crate::board::Rows;

verus! {

/// A row is complete when none of its cells is void.
pub open spec fn row_full(row: Seq<GridCell>) -> bool {
    forall|c: int| 0 <= c < row.len() ==> (#[trigger] row[c]).cell_type != GridCellType::Void
}

/// A row of empty cells.
pub open spec fn void_row() -> Seq<GridCell> {
    Seq::new(COL_COUNT as nat, |c: int| void_cell())
}

/// The rows that are not complete, in their order from the top.
pub open spec fn kept_rows(rows: Rows) -> Rows
    decreases rows.len(),
{
    if rows.len() == 0 {
        rows
    } else if row_full(rows[0]) {
        kept_rows(rows.drop_first())
    } else {
        seq![rows[0]] + kept_rows(rows.drop_first())
    }
}

/// The number of complete rows.
pub open spec fn full_row_count(rows: Rows) -> int {
    rows.len() - kept_rows(rows).len()
}

/// What takes the place of a row that has gone. Rows move down one at a
/// time and the top row stays where it is, so it is the top row that fills
/// the gap; a top row that is itself complete leaves an empty row behind.
pub open spec fn top_filler(rows: Rows) -> Seq<GridCell> {
    if row_full(rows[0]) {
        void_row()
    } else {
        rows[0]
    }
}

/// The board after the complete row `k` has gone: the rows above it are one
/// lower, the rows below it are where they were.
pub open spec fn one_clear(rows: Rows, k: int) -> Rows {
    Seq::new(
        rows.len(),
        |r: int|
            if r == 0 {
                top_filler(rows)
            } else if r <= k {
                rows[r - 1]
            } else {
                rows[r]
            },
    )
}

/// The board after every complete row has gone: the rows that are not
/// complete, in their order, at the bottom, under one filler row for each row
/// that went.
pub open spec fn collapsed(rows: Rows) -> Rows {
    Seq::new(full_row_count(rows) as nat, |r: int| top_filler(rows)) + kept_rows(rows)
}

/// No more rows are kept than there are.
pub proof fn lemma_kept_len(rows: Rows)
    ensures
        kept_rows(rows).len() <= rows.len(),
        0 <= full_row_count(rows) <= rows.len(),
    decreases rows.len(),
{
    if rows.len() > 0 {
        lemma_kept_len(rows.drop_first());
    }
}

/// The rows kept of two boards, one on top of the other, are the rows kept
/// of each.
pub proof fn lemma_kept_concat(a: Rows, b: Rows)
    ensures
        kept_rows(a + b) == kept_rows(a) + kept_rows(b),
    decreases a.len(),
{
    if a.len() == 0 {
        assert(a + b =~= b);
        assert(kept_rows(a) + kept_rows(b) =~= kept_rows(b));
    } else {
        assert((a + b).drop_first() =~= a.drop_first() + b);
        lemma_kept_concat(a.drop_first(), b);
        if !row_full(a[0]) {
            assert(seq![a[0]] + (kept_rows(a.drop_first()) + kept_rows(b)) =~= (seq![a[0]]
                + kept_rows(a.drop_first())) + kept_rows(b));
        }
    }
}

/// What holds of every row holds of every row that is kept.
pub proof fn lemma_kept_all(rows: Rows, p: spec_fn(Seq<GridCell>) -> bool)
    requires
        forall|r: int| 0 <= r < rows.len() ==> p(#[trigger] rows[r]),
    ensures
        forall|i: int| 0 <= i < kept_rows(rows).len() ==> p(#[trigger] kept_rows(rows)[i]),
    decreases rows.len(),
{
    if rows.len() > 0 {
        let rest = rows.drop_first();
        assert forall|r: int| 0 <= r < rest.len() implies p(#[trigger] rest[r]) by {
            assert(rest[r] == rows[r + 1]);
        }
        lemma_kept_all(rest, p);
        assert(p(rows[0]));
        let kept = kept_rows(rows);
        assert forall|i: int| 0 <= i < kept.len() implies p(#[trigger] kept[i]) by {
            if !row_full(rows[0]) && i > 0 {
                assert(kept[i] == kept_rows(rest)[i - 1]);
            }
        }
    }
}

/// No row that is kept is complete.
pub proof fn lemma_kept_not_full(rows: Rows)
    ensures
        forall|i: int| 0 <= i < kept_rows(rows).len() ==> !row_full(#[trigger] kept_rows(rows)[i]),
    decreases rows.len(),
{
    if rows.len() > 0 {
        let rest = rows.drop_first();
        lemma_kept_not_full(rest);
        let kept = kept_rows(rows);
        assert forall|i: int| 0 <= i < kept.len() implies !row_full(#[trigger] kept[i]) by {
            if !row_full(rows[0]) && i > 0 {
                assert(kept[i] == kept_rows(rest)[i - 1]);
            }
        }
    }
}

/// A board without complete rows keeps all its rows.
pub proof fn lemma_kept_everything(rows: Rows)
    requires
        forall|r: int| 0 <= r < rows.len() ==> !row_full(#[trigger] rows[r]),
    ensures
        kept_rows(rows) == rows,
    decreases rows.len(),
{
    if rows.len() > 0 {
        let rest = rows.drop_first();
        assert forall|r: int| 0 <= r < rest.len() implies !row_full(#[trigger] rest[r]) by {
            assert(rest[r] == rows[r + 1]);
        }
        lemma_kept_everything(rest);
        assert(!row_full(rows[0]));
        assert(seq![rows[0]] + rest =~= rows);
    }
}

/// The filler row is never complete.
pub proof fn lemma_filler_not_full(rows: Rows)
    ensures
        !row_full(top_filler(rows)),
{
    assert(void_row()[0].cell_type == GridCellType::Void);
}

/// Of a single row, the row is kept unless it is complete.
pub proof fn lemma_kept_single(row: Seq<GridCell>)
    ensures
        kept_rows(seq![row]) == if row_full(row) {
            Seq::<Seq<GridCell>>::empty()
        } else {
            seq![row]
        },
{
    reveal_with_fuel(kept_rows, 2);
    assert(seq![row].drop_first() =~= Seq::<Seq<GridCell>>::empty());
    assert(kept_rows(seq![row]) =~= if row_full(row) {
        Seq::<Seq<GridCell>>::empty()
    } else {
        seq![row]
    });
}

/// Taking out one complete row is a step towards the collapsed board: what
/// is left collapses to the same board, and has one complete row less.
pub proof fn lemma_one_clear(rows: Rows, k: int)
    requires
        0 <= k < rows.len(),
        row_full(rows[k]),
    ensures
        collapsed(one_clear(rows, k)) == collapsed(rows),
        full_row_count(one_clear(rows, k)) == full_row_count(rows) - 1,
        top_filler(one_clear(rows, k)) == top_filler(rows),
{
    let n = rows.len() as int;
    let filler = top_filler(rows);
    let above = rows.subrange(0, k);
    let below = rows.subrange(k + 1, n);
    let after = one_clear(rows, k);
    lemma_filler_not_full(rows);
    assert(after[0] == filler);
    assert(rows =~= above + seq![rows[k]] + below);
    assert(after =~= seq![filler] + above + below);
    lemma_kept_concat(above + seq![rows[k]], below);
    lemma_kept_concat(above, seq![rows[k]]);
    lemma_kept_concat(seq![filler] + above, below);
    lemma_kept_concat(seq![filler], above);
    lemma_kept_single(rows[k]);
    lemma_kept_single(filler);
    assert(kept_rows(rows) =~= kept_rows(above) + kept_rows(below));
    assert(kept_rows(after) =~= seq![filler] + kept_rows(rows));
    lemma_kept_len(rows);
    assert(top_filler(after) == filler);
    assert(full_row_count(after) == full_row_count(rows) - 1);
    let count = full_row_count(rows);
    lemma_kept_len(above);
    lemma_kept_len(below);
    assert(count >= 1);
    assert(Seq::new((count - 1) as nat, |r: int| filler) + (seq![filler] + kept_rows(rows))
        =~= Seq::new(count as nat, |r: int| filler) + kept_rows(rows));
}

/// A board without complete rows is its own collapse.
pub proof fn lemma_nothing_to_clear(rows: Rows)
    requires
        forall|r: int| 0 <= r < rows.len() ==> !row_full(#[trigger] rows[r]),
    ensures
        collapsed(rows) == rows,
        full_row_count(rows) == 0,
{
    lemma_kept_everything(rows);
    assert(collapsed(rows) =~= rows);
}

} // verus!
