//! Every command takes a well-formed session to a well-formed session.
use vstd::prelude::*;
use crate::cells::{GridCell, Stamp, void_cell};
use crate::shapes::{
    catalog, COL_COUNT, is_orientation, is_shape_index, lemma_catalog_ok, lemma_turned_ok,
    lemma_turned_orientation, oriented, Point, ROW_COUNT, shape_ok, SPAWN_COL, turned,
};
use crate::board::{
    covers, fixed_at, in_bounds, landing_row, lemma_landing_row, lemma_same_fixed_landing,
    lemma_same_fixed_valid, Rows, rows_ok, same_fixed, stamp_shape, valid_location,
};
use crate::lines::{
    collapsed, full_row_count, kept_rows, lemma_kept_all, lemma_kept_len, top_filler, void_row,
};
use crate::session::{
    all_settled, drawn, empty_rows, score_factor, Session, settled_at, settled_cell,
};

verus! {

/// Without the moving piece and its shadow the board is settled, and its fixed
/// cells are where they were.
pub proof fn lemma_lifted(s: Session)
    requires
        s.wf(),
        !s.game_over,
    ensures
        rows_ok(s.lifted()),
        all_settled(s.lifted()),
        same_fixed(s.rows, s.lifted()),
{
    let base = s.lifted();
    assert forall|c: int, r: int| in_bounds(c, r) implies #[trigger] settled_at(base, c, r)
        && fixed_at(s.rows, c, r) == fixed_at(base, c, r) by {
        assert(s.cell_in_play(c, r));
    }
}

/// A piece drawn where it fits on a settled board gives a board in play.
pub proof fn lemma_drawn(s: Session, base: Rows)
    requires
        rows_ok(base),
        all_settled(base),
        shape_ok(s.shape),
        is_shape_index(s.shape_index),
        valid_location(base, s.shape, s.col, s.row, true),
        s.rows == drawn(base, s.shape, s.shape_index, s.col, s.row),
        s.ghost_row == landing_row(base, s.shape, s.col, s.row),
    ensures
        rows_ok(s.rows),
        same_fixed(base, s.rows),
        s.in_play(),
        s.row <= s.ghost_row < ROW_COUNT,
        0 <= s.col < COL_COUNT,
{
    lemma_landing_row(base, s.shape, s.col, s.row);
    assert forall|c: int, r: int| in_bounds(c, r) implies #[trigger] s.cell_in_play(c, r)
        && fixed_at(base, c, r) == fixed_at(s.rows, c, r) by {
        assert(settled_at(base, c, r));
    }
    assert(same_fixed(base, s.rows));
    lemma_same_fixed_valid(base, s.rows, s.shape, s.col, s.row, true);
    lemma_same_fixed_landing(base, s.rows, s.shape, s.col, s.row);
}

/// A move keeps a session well formed.
pub proof fn lemma_moved_wf(s: Session, col: int, row: int)
    requires
        s.wf(),
        s.can_move_to(col, row),
    ensures
        s.moved_to(col, row).wf(),
{
    let base = s.lifted();
    let t = s.moved_to(col, row);
    lemma_lifted(s);
    lemma_same_fixed_valid(s.rows, base, s.shape, col, row, true);
    lemma_same_fixed_landing(s.rows, base, s.shape, col, row);
    lemma_drawn(t, base);
}

/// A quarter turn keeps a session well formed.
pub proof fn lemma_rotated_wf(s: Session, clockwise: bool)
    requires
        s.wf(),
    ensures
        s.rotated(clockwise).wf(),
{
    if let Some(col) = s.rotation_column(clockwise) {
        let base = s.lifted();
        let shape = turned(s.shape, clockwise);
        let t = s.rotated(clockwise);
        assert(shape_ok(shape)) by {
            lemma_turned_ok(s.shape, clockwise);
        }
        assert(is_orientation(shape, s.shape_index)) by {
            lemma_turned_orientation(s.shape, s.shape_index, clockwise);
        }
        lemma_lifted(s);
        lemma_same_fixed_valid(s.rows, base, shape, col, s.row, true);
        lemma_same_fixed_landing(s.rows, base, shape, col, s.row);
        assert(t.in_play() && rows_ok(t.rows) && 0 <= t.col < COL_COUNT && t.row <= t.ghost_row
            < ROW_COUNT) by {
            lemma_drawn(t, base);
        }
    }
}

/// A row of settled cells, as wide as the board.
pub open spec fn settled_row(row: Seq<GridCell>) -> bool {
    &&& row.len() == COL_COUNT
    &&& forall|c: int| 0 <= c < COL_COUNT ==> settled_cell(#[trigger] row[c])
}

/// Clearing the complete rows of a settled board gives a settled board.
pub proof fn lemma_collapsed_settled(rows: Rows)
    requires
        rows_ok(rows),
        all_settled(rows),
    ensures
        rows_ok(collapsed(rows)),
        all_settled(collapsed(rows)),
{
    let after = collapsed(rows);
    let p = |row: Seq<GridCell>| settled_row(row);
    assert forall|r: int| 0 <= r < rows.len() implies p(#[trigger] rows[r]) by {
        assert forall|c: int| 0 <= c < COL_COUNT implies settled_cell(#[trigger] rows[r][c]) by {
            assert(settled_at(rows, c, r));
        }
    }
    lemma_kept_all(rows, p);
    lemma_kept_len(rows);
    assert(settled_row(void_row()));
    assert(p(rows[0]));
    assert(settled_row(top_filler(rows)));
    let count = full_row_count(rows);
    assert forall|r: int| 0 <= r < ROW_COUNT implies settled_row(#[trigger] after[r]) by {
        if r >= count {
            assert(after[r] == kept_rows(rows)[r - count]);
            assert(p(kept_rows(rows)[r - count]));
        }
    }
    assert forall|c: int, r: int| in_bounds(c, r) implies #[trigger] settled_at(after, c, r) by {
        assert(settled_row(after[r]));
    }
}

/// When the moving piece settles, the session comes to rest.
pub proof fn lemma_landed(s: Session)
    requires
        s.wf(),
        s.lands(),
        s.tick_fits(),
    ensures
        s.landed().at_rest(),
        0 <= s.landing_count() <= ROW_COUNT,
        s.ghost_row == s.row,
{
    let fixed = stamp_shape(s.rows, s.shape, s.col, s.row, Stamp::Fix);
    assert(!valid_location(s.rows, s.shape, s.col, s.row + 1, true));
    assert(s.ghost_row == s.row);
    assert forall|c: int, r: int| in_bounds(c, r) implies #[trigger] settled_at(fixed, c, r) by {
        assert(s.cell_in_play(c, r));
    }
    lemma_collapsed_settled(fixed);
    lemma_kept_len(fixed);
    let count = s.landing_count();
    assert(0 <= score_factor(count) * (s.level + 1)) by (nonlinear_arith)
        requires
            0 <= score_factor(count),
            0 <= s.level,
    ;
}

/// The entry of the next piece takes a session at rest to a well-formed
/// session: in play if the piece fits, over if it does not.
pub proof fn lemma_spawned_wf(s: Session, next: int)
    requires
        s.at_rest(),
        is_shape_index(next),
    ensures
        (Session { game_over: !s.spawn_fits(), ..s.spawned(next) }).wf(),
{
    let t = Session { game_over: !s.spawn_fits(), ..s.spawned(next) };
    lemma_catalog_ok(s.next_shape_index);
    assert(t.shape == oriented(t.shape_index, 0));
    if s.spawn_fits() {
        lemma_drawn(t, s.rows);
    }
}

/// With headroom in the counters a tick fits.
pub proof fn lemma_headroom(s: Session)
    requires
        s.wf(),
        s.has_headroom(),
    ensures
        s.tick_fits(),
{
    let fixed = stamp_shape(s.rows, s.shape, s.col, s.row, Stamp::Fix);
    lemma_kept_len(fixed);
    let count = s.landing_count();
    assert(score_factor(count) * (s.level + 1) <= 1200 * (s.level + 1)) by (nonlinear_arith)
        requires
            score_factor(count) <= 1200,
            0 <= s.level,
    ;
}

/// A tick keeps a session well formed.
pub proof fn lemma_ticked_wf(s: Session, next: int)
    requires
        s.wf(),
        s.tick_fits(),
        is_shape_index(next),
    ensures
        s.ticked(next).wf(),
{
    if s.game_over {
    } else if s.can_move_to(s.col, s.row + 1) {
        lemma_moved_wf(s, s.col, s.row + 1);
    } else {
        lemma_landed(s);
        lemma_spawned_wf(s.landed(), next);
    }
}

/// On the empty board every piece fits where pieces enter.
pub proof fn lemma_empty_board(index: int)
    requires
        is_shape_index(index),
    ensures
        rows_ok(empty_rows()),
        all_settled(empty_rows()),
        valid_location(empty_rows(), catalog(index), SPAWN_COL as int, 0, true),
{
    assert forall|c: int, r: int| in_bounds(c, r) implies #[trigger] settled_at(
        empty_rows(),
        c,
        r,
    ) by {
        assert(empty_rows()[r][c] == void_cell());
    }
}

/// The start of a game keeps a session well formed, and a game that has been
/// started is in play.
pub proof fn lemma_started_wf(s: Session, first: int, next: int)
    requires
        s.wf(),
        is_shape_index(first),
        is_shape_index(next),
    ensures
        s.started(first, next).wf(),
        !s.started(first, next).game_over,
{
    if s.game_over {
        let fresh = Session {
            rows: empty_rows(),
            game_over: false,
            level: 0,
            score: 0,
            rows_completed: 0,
            rows_completed_level: 0,
            next_shape: catalog(first),
            next_shape_index: first,
            ..s
        };
        lemma_empty_board(first);
        assert(fresh.spawn_fits());
        lemma_spawned_wf(fresh, next);
        assert(s.started(first, next) == (Session { game_over: false, ..fresh.spawned(next) }));
    }
}

/// Taking the moving piece to where it is changes nothing.
pub proof fn lemma_move_identity(s: Session)
    requires
        s.wf(),
        !s.game_over,
    ensures
        s.moved_to(s.col, s.row) == s,
{
    let base = s.lifted();
    let t = s.moved_to(s.col, s.row);
    lemma_lifted(s);
    lemma_same_fixed_valid(s.rows, base, s.shape, s.col, s.row, true);
    lemma_same_fixed_landing(s.rows, base, s.shape, s.col, s.row);
    lemma_drawn(t, base);
    assert forall|r: int| 0 <= r < ROW_COUNT implies #[trigger] t.rows[r] =~= s.rows[r] by {
        assert forall|c: int| 0 <= c < COL_COUNT implies #[trigger] t.rows[r][c]
            == s.rows[r][c] by {
            assert(s.cell_in_play(c, r));
            assert(t.cell_in_play(c, r));
            assert(settled_at(base, c, r));
        }
    }
    assert(t.rows =~= s.rows);
}

/// Taking a piece off the board on which it was drawn gives that board back.
pub proof fn lemma_lift_undoes_draw(s: Session, base: Rows)
    requires
        rows_ok(base),
        all_settled(base),
        shape_ok(s.shape),
        is_shape_index(s.shape_index),
        valid_location(base, s.shape, s.col, s.row, true),
        s.rows == drawn(base, s.shape, s.shape_index, s.col, s.row),
        s.ghost_row == landing_row(base, s.shape, s.col, s.row),
    ensures
        s.lifted() == base,
{
    lemma_landing_row(base, s.shape, s.col, s.row);
    assert forall|r: int| 0 <= r < ROW_COUNT implies #[trigger] s.lifted()[r] =~= base[r] by {
        assert forall|c: int| 0 <= c < COL_COUNT implies #[trigger] s.lifted()[r][c]
            == base[r][c] by {
            assert(settled_at(base, c, r));
            if covers(s.shape, s.col, s.row, c, r) {
                lemma_covered_is_free(base, s.shape, s.col, s.row, c, r);
            }
            if covers(s.shape, s.col, s.ghost_row, c, r) {
                lemma_covered_is_free(base, s.shape, s.col, s.ghost_row, c, r);
            }
        }
    }
    assert(s.lifted() =~= base);
}

/// Of two moves in a row only the second one shows: the piece can go from
/// where the first took it to wherever it could go before, and the session
/// is then what the second move alone would have made of it.
pub proof fn lemma_move_twice(s: Session, col1: int, row1: int, col2: int, row2: int)
    requires
        s.wf(),
        s.can_move_to(col1, row1),
    ensures
        s.moved_to(col1, row1).can_move_to(col2, row2) == s.can_move_to(col2, row2),
        s.moved_to(col1, row1).moved_to(col2, row2) == s.moved_to(col2, row2),
{
    let base = s.lifted();
    let t = s.moved_to(col1, row1);
    lemma_lifted(s);
    lemma_same_fixed_valid(s.rows, base, s.shape, col1, row1, true);
    lemma_same_fixed_landing(s.rows, base, s.shape, col1, row1);
    assert(same_fixed(base, t.rows)) by {
        lemma_drawn(t, base);
    }
    assert(t.lifted() == base) by {
        lemma_lift_undoes_draw(t, base);
    }
    lemma_same_fixed_valid(s.rows, base, s.shape, col2, row2, true);
    lemma_same_fixed_valid(base, t.rows, s.shape, col2, row2, true);
    lemma_same_fixed_landing(s.rows, base, s.shape, col2, row2);
    lemma_same_fixed_landing(base, t.rows, s.shape, col2, row2);
}

/// Under a piece that fits on a settled board every cell is empty.
pub proof fn lemma_covered_is_free(
    rows: Rows,
    shape: Seq<Point>,
    col: int,
    row: int,
    c: int,
    r: int,
)
    requires
        valid_location(rows, shape, col, row, true),
        in_bounds(c, r),
        covers(shape, col, row, c, r),
        settled_at(rows, c, r),
    ensures
        rows[r][c] == void_cell(),
{
}

} // verus!
