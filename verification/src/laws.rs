//! What holds of the game whatever the board and the pieces: statements that
//! relate the commands to each other and to the board, each with its proof.
use vstd::prelude::*;
use crate::cells::{GridCell, GridCellType, Stamp, void_cell};
use crate::shapes::{
    catalog, COL_COUNT, is_shape_index, lemma_turned_ok, ROW_COUNT, SPAWN_COL, SQUARE_SHAPE_INDEX,
    turned,
};
use crate::board::{
    covers, in_bounds, lemma_falls_freely, lemma_landing_row, lemma_same_fixed_landing,
    lemma_same_fixed_valid, Rows, rows_ok, same_fixed, stamp_shape,
};
use crate::lines::{
    collapsed, full_row_count, kept_rows, lemma_filler_not_full, lemma_kept_concat,
    lemma_kept_everything, lemma_kept_len, lemma_kept_not_full, lemma_kept_single,
    lemma_nothing_to_clear, lemma_one_clear, one_clear, row_full, top_filler,
};
use crate::session::{drawn, empty_rows, kick_column, score_factor, Session};
use crate::invariants::{
    lemma_drawn, lemma_empty_board, lemma_lifted, lemma_moved_wf, lemma_started_wf,
};

verus! {

/// A game that is started when none is in play starts afresh: it is in play,
/// score, level and row counts are zero, the first piece stands where pieces
/// enter, its shadow lies where it would land, and every other cell of the
/// board is empty.
pub proof fn lemma_fresh_start(s: Session, first: int, next: int)
    requires
        s.wf(),
        s.game_over,
        is_shape_index(first),
        is_shape_index(next),
    ensures
        !s.started(first, next).game_over,
        s.started(first, next).score == 0,
        s.started(first, next).level == 0,
        s.started(first, next).rows_completed == 0,
        s.started(first, next).rows_completed_level == 0,
        s.started(first, next).shape_index == first,
        s.started(first, next).shape == catalog(first),
        s.started(first, next).next_shape_index == next,
        s.started(first, next).col == SPAWN_COL,
        s.started(first, next).row == 0,
        forall|c: int, r: int|
            #![trigger s.started(first, next).rows[r][c]]
            in_bounds(c, r) ==> s.started(first, next).rows[r][c] == if covers(
                catalog(first),
                SPAWN_COL as int,
                0,
                c,
                r,
            ) {
                GridCell { cell_type: GridCellType::Shape, shape_index: first as i32 }
            } else if covers(
                catalog(first),
                SPAWN_COL as int,
                s.started(first, next).ghost_row,
                c,
                r,
            ) {
                GridCell { cell_type: GridCellType::Shadow, shape_index: -1i32 }
            } else {
                void_cell()
            },
{
    let t = s.started(first, next);
    lemma_started_wf(s, first, next);
    lemma_empty_board(first);
    assert forall|c: int, r: int| in_bounds(c, r) implies #[trigger] t.rows[r][c] == if covers(
        catalog(first),
        SPAWN_COL as int,
        0,
        c,
        r,
    ) {
        GridCell { cell_type: GridCellType::Shape, shape_index: first as i32 }
    } else if covers(catalog(first), SPAWN_COL as int, t.ghost_row, c, r) {
        GridCell { cell_type: GridCellType::Shadow, shape_index: -1i32 }
    } else {
        void_cell()
    } by {
        assert(t.cell_in_play(c, r));
        assert(empty_rows()[r][c] == void_cell());
    }
}

/// The square cannot be turned: a quarter turn is refused and leaves the
/// session, board and all, as it was.
pub proof fn lemma_square_stays(s: Session, clockwise: bool)
    requires
        s.shape_index == SQUARE_SHAPE_INDEX,
    ensures
        s.rotation_column(clockwise).is_none(),
        s.rotated(clockwise) == s,
{
}

/// When no game is in play, the piece is neither moved nor turned nor
/// dropped, and a tick changes nothing.
pub proof fn lemma_idle_when_over(s: Session, col: int, row: int, clockwise: bool, next: int)
    requires
        s.game_over,
    ensures
        !s.can_move_to(col, row),
        s.rotation_column(clockwise).is_none(),
        s.rotated(clockwise) == s,
        s.dropped() == s,
        s.ticked(next) == s,
{
}

/// A kick goes towards the middle of the board and takes the point for whose
/// sake it is made between the walls. It goes no further than it has to: at
/// no column `nearer` that it passes is the point between the walls, so a
/// piece whose point is between the walls already stays where it is.
pub proof fn lemma_kick_column(col: int, x: int, nearer: int)
    requires
        0 <= col < COL_COUNT,
        -COL_COUNT / 2 <= x <= COL_COUNT / 2,
        col <= nearer < kick_column(col, x) || kick_column(col, x) < nearer <= col,
    ensures
        0 <= kick_column(col, x) + x < COL_COUNT,
        col < COL_COUNT / 2 ==> col < kick_column(col, x),
        col >= COL_COUNT / 2 ==> kick_column(col, x) < col,
        !(0 <= nearer + x < COL_COUNT),
{
}

/// A piece is not kicked for the sake of a point that is between the walls,
/// and wherever it is kicked to, that point is between the walls.
pub proof fn lemma_kick_between_walls(col: int, x: int)
    requires
        0 <= col < COL_COUNT,
        -COL_COUNT / 2 <= x <= COL_COUNT / 2,
    ensures
        0 <= kick_column(col, x) + x < COL_COUNT,
        0 <= col + x < COL_COUNT ==> kick_column(col, x) == col,
{
}

/// Neither a move nor a quarter turn nor a drop touches a fixed cell, or
/// makes one.
pub proof fn lemma_fixed_cells_stay(s: Session, col: int, row: int, clockwise: bool)
    requires
        s.wf(),
    ensures
        s.can_move_to(col, row) ==> same_fixed(s.rows, s.moved_to(col, row).rows),
        same_fixed(s.rows, s.rotated(clockwise).rows),
        same_fixed(s.rows, s.dropped().rows),
{
    if !s.game_over {
        lemma_lifted(s);
        let base = s.lifted();
        if s.can_move_to(col, row) {
            lemma_same_fixed_valid(s.rows, base, s.shape, col, row, true);
            lemma_same_fixed_landing(s.rows, base, s.shape, col, row);
            lemma_drawn(s.moved_to(col, row), base);
        }
        if let Some(kicked) = s.rotation_column(clockwise) {
            let shape = turned(s.shape, clockwise);
            lemma_turned_ok(s.shape, clockwise);
            lemma_same_fixed_valid(s.rows, base, shape, kicked, s.row, true);
            lemma_same_fixed_landing(s.rows, base, shape, kicked, s.row);
            lemma_drawn(s.rotated(clockwise), base);
        }
        lemma_landing_row(s.rows, s.shape, s.col, s.row);
        lemma_same_fixed_valid(s.rows, base, s.shape, s.col, s.ghost_row, true);
        lemma_same_fixed_landing(s.rows, base, s.shape, s.col, s.ghost_row);
        lemma_drawn(s.dropped(), base);
    }
}

/// A piece that has been dropped stands on its shadow, and the next tick
/// makes it settle there.
pub proof fn lemma_dropped_lands(s: Session)
    requires
        s.wf(),
        !s.game_over,
    ensures
        s.dropped().wf(),
        s.dropped().col == s.col,
        s.dropped().row == s.ghost_row,
        s.dropped().ghost_row == s.ghost_row,
        s.dropped().lands(),
{
    lemma_landing_row(s.rows, s.shape, s.col, s.row);
    lemma_falls_freely(s.rows, s.shape, s.col, s.row, s.ghost_row);
    lemma_moved_wf(s, s.col, s.ghost_row);
    lemma_fixed_cells_stay(s, s.col, s.ghost_row, true);
    lemma_same_fixed_valid(s.rows, s.dropped().rows, s.shape, s.col, s.ghost_row + 1, true);
}

/// A tick takes nothing away: score, level and the count of completed rows
/// stay as they are or grow.
pub proof fn lemma_tick_takes_nothing(s: Session, next: int)
    requires
        s.wf(),
    ensures
        s.ticked(next).score >= s.score,
        s.ticked(next).level >= s.level,
        s.ticked(next).rows_completed >= s.rows_completed,
{
    if s.lands() {
        let fixed = stamp_shape(s.rows, s.shape, s.col, s.row, Stamp::Fix);
        lemma_kept_len(fixed);
        assert(0 <= score_factor(s.landing_count()) * (s.level + 1)) by (nonlinear_arith)
            requires
                0 <= score_factor(s.landing_count()),
                0 <= s.level,
        ;
    }
}

/// Clearing leaves no complete row behind.
pub proof fn lemma_collapsed_has_no_full_row(rows: Rows)
    requires
        rows_ok(rows),
    ensures
        collapsed(rows).len() == rows.len(),
        forall|r: int| 0 <= r < rows.len() ==> !row_full(#[trigger] collapsed(rows)[r]),
{
    lemma_kept_len(rows);
    lemma_kept_not_full(rows);
    lemma_filler_not_full(rows);
    let count = full_row_count(rows);
    assert forall|r: int| 0 <= r < rows.len() implies !row_full(#[trigger] collapsed(rows)[r]) by {
        if r >= count {
            assert(collapsed(rows)[r] == kept_rows(rows)[r - count]);
        }
    }
}

/// Clearing takes each row that is not complete down by as many rows as
/// there are complete rows below it.
pub proof fn lemma_row_comes_down(rows: Rows, r: int)
    requires
        rows_ok(rows),
        0 <= r < ROW_COUNT,
        !row_full(rows[r]),
    ensures
        0 <= full_row_count(rows.subrange(r + 1, ROW_COUNT as int)) < ROW_COUNT - r,
        collapsed(rows)[r + full_row_count(rows.subrange(r + 1, ROW_COUNT as int))] == rows[r],
{
    let n = rows.len() as int;
    let upper = rows.subrange(0, r);
    let lower = rows.subrange(r + 1, n);
    assert(rows =~= upper + seq![rows[r]] + lower);
    lemma_kept_concat(upper + seq![rows[r]], lower);
    lemma_kept_concat(upper, seq![rows[r]]);
    lemma_kept_single(rows[r]);
    lemma_kept_len(upper);
    lemma_kept_len(lower);
    lemma_kept_len(rows);
    let kept = kept_rows(rows);
    assert(kept =~= kept_rows(upper) + seq![rows[r]] + kept_rows(lower));
    assert(kept[kept_rows(upper).len() as int] == rows[r]);
}

/// Clearing does not touch the rows below the lowest complete row.
pub proof fn lemma_rows_below_stay(rows: Rows, k: int)
    requires
        rows_ok(rows),
        0 <= k < ROW_COUNT,
        forall|r: int| k < r < ROW_COUNT ==> !row_full(#[trigger] rows[r]),
    ensures
        forall|r: int| k < r < ROW_COUNT ==> #[trigger] collapsed(rows)[r] == rows[r],
{
    let n = rows.len() as int;
    let upper = rows.subrange(0, k + 1);
    let lower = rows.subrange(k + 1, n);
    assert(rows =~= upper + lower);
    lemma_kept_concat(upper, lower);
    assert forall|r: int| 0 <= r < lower.len() implies !row_full(#[trigger] lower[r]) by {
        assert(lower[r] == rows[r + k + 1]);
    }
    lemma_kept_everything(lower);
    lemma_kept_len(upper);
    lemma_kept_len(rows);
    let count = full_row_count(rows);
    assert forall|r: int| k < r < ROW_COUNT implies #[trigger] collapsed(rows)[r] == rows[r] by {
        assert(collapsed(rows)[r] == kept_rows(rows)[r - count]);
        assert(kept_rows(rows)[r - count] == lower[r - count - kept_rows(upper).len()]);
    }
}

/// Where just one row is complete, clearing takes that row out: each row
/// above it comes down by exactly one, each row below it stays where it is,
/// and one row is counted.
pub proof fn lemma_single_row_cleared(rows: Rows, k: int)
    requires
        rows_ok(rows),
        0 <= k < ROW_COUNT,
        row_full(rows[k]),
        forall|r: int| 0 <= r < ROW_COUNT && r != k ==> !row_full(#[trigger] rows[r]),
    ensures
        full_row_count(rows) == 1,
        collapsed(rows) == one_clear(rows, k),
        collapsed(rows)[0] == top_filler(rows),
        forall|r: int| 0 < r <= k ==> #[trigger] collapsed(rows)[r] == rows[r - 1],
        forall|r: int| k < r < ROW_COUNT ==> #[trigger] collapsed(rows)[r] == rows[r],
{
    let after = one_clear(rows, k);
    lemma_one_clear(rows, k);
    lemma_filler_not_full(rows);
    assert forall|r: int| 0 <= r < after.len() implies !row_full(#[trigger] after[r]) by {
        if r == 0 {
        } else if r <= k {
            assert(!row_full(rows[r - 1]));
        } else {
            assert(!row_full(rows[r]));
        }
    }
    lemma_nothing_to_clear(after);
}

/// When a tick makes the moving piece settle, the complete rows go, and the
/// score grows by what they are worth: 40 points for one row, 100 for two,
/// 300 for three, 1200 for four, nothing for any other number, each times
/// one more than the level at which the piece settled. The piece that enters
/// does not change the score.
pub proof fn lemma_tick_scores(s: Session, next: int)
    requires
        s.wf(),
        s.lands(),
    ensures
        s.ticked(next).score == s.score + score_factor(s.landing_count()) * (s.level + 1),
        s.landing_count() == 0 ==> s.ticked(next).score == s.score,
        s.landing_count() == 1 ==> s.ticked(next).score == s.score + 40 * (s.level + 1),
        s.landing_count() == 2 ==> s.ticked(next).score == s.score + 100 * (s.level + 1),
        s.landing_count() == 3 ==> s.ticked(next).score == s.score + 300 * (s.level + 1),
        s.landing_count() == 4 ==> s.ticked(next).score == s.score + 1200 * (s.level + 1),
        s.ticked(next).rows_completed == s.rows_completed + s.landing_count(),
{
}

/// When a tick makes the moving piece settle, the board on which the next
/// piece enters is the board with the piece fixed and the complete rows
/// cleared; the piece and its shadow are drawn on it if the piece fits, and
/// if it does not, the game is over with that board.
pub proof fn lemma_tick_clears(s: Session, next: int)
    requires
        s.wf(),
        s.lands(),
    ensures
        s.landed().rows == collapsed(stamp_shape(s.rows, s.shape, s.col, s.row, Stamp::Fix)),
        s.ticked(next).game_over == !s.landed().spawn_fits(),
        s.ticked(next).game_over ==> s.ticked(next).rows == s.landed().rows,
        !s.ticked(next).game_over ==> s.ticked(next).rows == drawn(
            s.landed().rows,
            catalog(s.next_shape_index),
            s.next_shape_index,
            SPAWN_COL as int,
            0,
        ),
{
}

} // verus!
