//! A game as a mathematical object: what a session holds, which sessions are
//! well formed, and what each command makes of a session.
use vstd::prelude::*;
use crate::cells::{GridCell, GridCellType, Stamp, void_cell};
use crate::shapes::{
    catalog, COL_COUNT, is_orientation, is_shape_index, Point, ROW_COUNT, ROWS_PER_LEVEL, shape_ok,
    SPAWN_COL, SQUARE_SHAPE_INDEX, turned,
};
use crate::board::{covers, in_bounds, landing_row, Rows, rows_ok, stamp_shape, valid_location};
use crate::lines::{collapsed, full_row_count, void_row};

verus! {

/// Everything a game holds, but for its source of random numbers.
#[verifier::ext_equal]
pub struct Session {
    /// The playfield, top row first.
    pub rows: Rows,
    /// Whether the game is over, or has not begun.
    pub game_over: bool,
    /// The moving piece, as it is turned now.
    pub shape: Seq<Point>,
    /// The index of the moving piece in the catalog.
    pub shape_index: int,
    /// The column of the anchor of the moving piece.
    pub col: int,
    /// The row of the anchor of the moving piece.
    pub row: int,
    /// The row at which the moving piece would land.
    pub ghost_row: int,
    /// The piece that enters next.
    pub next_shape: Seq<Point>,
    /// The index of the piece that enters next.
    pub next_shape_index: int,
    /// The level of play.
    pub level: int,
    /// The rows completed since the level began.
    pub rows_completed_level: int,
    /// The score.
    pub score: int,
    /// The rows completed since the game began.
    pub rows_completed: int,
}

/// A cell as it is when no piece is moving over it: empty, or part of a piece
/// that has settled.
pub open spec fn settled_cell(cell: GridCell) -> bool {
    ||| cell == void_cell()
    ||| (cell.cell_type == GridCellType::Fixed && is_shape_index(cell.shape_index as int))
}

/// Whether the cell at (`c`, `r`) is settled.
pub open spec fn settled_at(rows: Rows, c: int, r: int) -> bool {
    settled_cell(rows[r][c])
}

/// Whether every cell of the board is settled.
pub open spec fn all_settled(rows: Rows) -> bool {
    forall|c: int, r: int| in_bounds(c, r) ==> #[trigger] settled_at(rows, c, r)
}

/// The board with nothing on it.
pub open spec fn empty_rows() -> Rows {
    Seq::new(ROW_COUNT as nat, |r: int| void_row())
}

/// The board once a piece has entered at (`col`, `row`) and cast its shadow
/// where it would land.
pub open spec fn drawn(rows: Rows, shape: Seq<Point>, index: int, col: int, row: int) -> Rows {
    stamp_shape(
        stamp_shape(rows, shape, col, row, Stamp::Place(index as i32)),
        shape,
        col,
        landing_row(rows, shape, col, row),
        Stamp::Shade,
    )
}

/// The points that one cleared group of `rows` rows is worth at level 0.
pub open spec fn score_factor(rows: int) -> int {
    if rows == 1 {
        40
    } else if rows == 2 {
        100
    } else if rows == 3 {
        300
    } else if rows == 4 {
        1200
    } else {
        0
    }
}

/// The time from one tick to the next at the given level, in milliseconds: a
/// second at level 0 and 80 milliseconds less with each level up to level 10,
/// a quarter of a second there and 12 milliseconds less with each level after.
pub open spec fn tick_millis(level: int) -> int {
    if level < 10 {
        1000 - 80 * level
    } else {
        250 - 12 * (level - 10)
    }
}

/// The column to which a turned piece anchored at `col` is pushed for the sake
/// of a point at offset `x`: `col` itself if the point is between the walls;
/// else the nearest column towards the middle of the board at which it is.
pub open spec fn kick_column(col: int, x: int) -> int {
    if 0 <= col + x < COL_COUNT {
        col
    } else if col < COL_COUNT / 2 {
        -x
    } else {
        COL_COUNT - 1 - x
    }
}

/// The column at which a turned piece comes to stand: the first of the kick
/// columns of its four points at which it fits.
pub open spec fn kicked_column(rows: Rows, shape: Seq<Point>, col: int, row: int) -> Option<int> {
    if valid_location(rows, shape, kick_column(col, shape[0].x as int), row, true) {
        Some(kick_column(col, shape[0].x as int))
    } else if valid_location(rows, shape, kick_column(col, shape[1].x as int), row, true) {
        Some(kick_column(col, shape[1].x as int))
    } else if valid_location(rows, shape, kick_column(col, shape[2].x as int), row, true) {
        Some(kick_column(col, shape[2].x as int))
    } else if valid_location(rows, shape, kick_column(col, shape[3].x as int), row, true) {
        Some(kick_column(col, shape[3].x as int))
    } else {
        None
    }
}

impl Session {
    /// What a cell holds while a game is in play: the moving piece where the
    /// piece is, its shadow where it would land, and a settled cell elsewhere.
    pub open spec fn cell_in_play(self, c: int, r: int) -> bool {
        let cell = self.rows[r][c];
        if covers(self.shape, self.col, self.row, c, r) {
            cell == (GridCell {
                cell_type: GridCellType::Shape,
                shape_index: self.shape_index as i32,
            })
        } else if covers(self.shape, self.col, self.ghost_row, c, r) {
            cell == (GridCell { cell_type: GridCellType::Shadow, shape_index: -1i32 })
        } else {
            settled_cell(cell)
        }
    }

    /// What holds while a game is in play: the piece is where it fits, the
    /// shadow is where the piece would land, and the board shows both.
    pub open spec fn in_play(self) -> bool {
        &&& valid_location(self.rows, self.shape, self.col, self.row, true)
        &&& self.ghost_row == landing_row(self.rows, self.shape, self.col, self.row)
        &&& forall|c: int, r: int| in_bounds(c, r) ==> #[trigger] self.cell_in_play(c, r)
    }

    /// Whether the counters are within what the game can hold.
    pub open spec fn counters_fit(self) -> bool {
        &&& 0 <= self.level <= u32::MAX
        &&& 0 <= self.score <= u32::MAX
        &&& 0 <= self.rows_completed <= u32::MAX
        &&& 0 <= self.rows_completed_level <= ROWS_PER_LEVEL
    }

    /// What holds of a session whatever is on the board: the board has its
    /// dimensions; the moving piece is the piece that its index names, turned
    /// some way, and so is well formed; the next piece is the piece that its
    /// index names, as it enters; the anchor is on the board, and not below
    /// the row of the shadow; and the counters are within their limits.
    pub open spec fn frame_ok(self) -> bool {
        &&& rows_ok(self.rows)
        &&& is_shape_index(self.shape_index)
        &&& is_orientation(self.shape, self.shape_index)
        &&& shape_ok(self.shape)
        &&& is_shape_index(self.next_shape_index)
        &&& self.next_shape == catalog(self.next_shape_index)
        &&& 0 <= self.col < COL_COUNT
        &&& 0 <= self.row <= self.ghost_row < ROW_COUNT
        &&& self.counters_fit()
    }

    /// Whether this is a session that a game can be in.
    pub open spec fn wf(self) -> bool {
        &&& self.frame_ok()
        &&& !self.game_over ==> self.in_play()
    }

    /// Whether this is a session between two pieces: one has settled, the next
    /// has not entered, and every cell of the board is settled.
    pub open spec fn at_rest(self) -> bool {
        &&& self.frame_ok()
        &&& all_settled(self.rows)
    }

    /// The session before the first game: an empty board, and the game over.
    pub open spec fn initial() -> Session {
        Session {
            rows: empty_rows(),
            game_over: true,
            shape: catalog(0),
            shape_index: 0,
            col: 0,
            row: 0,
            ghost_row: 0,
            next_shape: catalog(0),
            next_shape_index: 0,
            level: 0,
            rows_completed_level: 0,
            score: 0,
            rows_completed: 0,
        }
    }

    /// The board without the moving piece and its shadow.
    pub open spec fn lifted(self) -> Rows {
        stamp_shape(
            stamp_shape(self.rows, self.shape, self.col, self.row, Stamp::Lift),
            self.shape,
            self.col,
            self.ghost_row,
            Stamp::Unshade,
        )
    }

    /// Whether the moving piece can be taken to (`col`, `row`): a game is in
    /// play, the anchor is on the board, and the piece fits there.
    pub open spec fn can_move_to(self, col: int, row: int) -> bool {
        &&& !self.game_over
        &&& in_bounds(col, row)
        &&& valid_location(self.rows, self.shape, col, row, true)
    }

    /// The session after the moving piece has been taken to (`col`, `row`).
    pub open spec fn moved_to(self, col: int, row: int) -> Session {
        Session {
            rows: drawn(self.lifted(), self.shape, self.shape_index, col, row),
            col,
            row,
            ghost_row: landing_row(self.rows, self.shape, col, row),
            ..self
        }
    }

    /// The column at which the moving piece stands after a quarter turn, if it
    /// can be turned. The square is never turned. Another piece can be turned
    /// if, turned where it stands, it is above the floor and on no fixed cell,
    /// and if it then fits at one of its kick columns.
    pub open spec fn rotation_column(self, clockwise: bool) -> Option<int> {
        let shape = turned(self.shape, clockwise);
        if self.game_over || self.shape_index == SQUARE_SHAPE_INDEX || !valid_location(
            self.rows,
            shape,
            self.col,
            self.row,
            false,
        ) {
            None
        } else {
            kicked_column(self.rows, shape, self.col, self.row)
        }
    }

    /// The session after a quarter turn of the moving piece, where it can be
    /// turned; the same session where it cannot.
    pub open spec fn rotated(self, clockwise: bool) -> Session {
        match self.rotation_column(clockwise) {
            Some(col) => {
                let shape = turned(self.shape, clockwise);
                Session {
                    rows: drawn(self.lifted(), shape, self.shape_index, col, self.row),
                    shape,
                    col,
                    ghost_row: landing_row(self.rows, shape, col, self.row),
                    ..self
                }
            },
            None => self,
        }
    }

    /// The session after the moving piece has fallen as far as it can.
    pub open spec fn dropped(self) -> Session {
        if self.game_over {
            self
        } else {
            self.moved_to(self.col, self.ghost_row)
        }
    }

    /// The number of rows that are complete once the moving piece has settled
    /// where it is.
    pub open spec fn landing_count(self) -> int {
        full_row_count(stamp_shape(self.rows, self.shape, self.col, self.row, Stamp::Fix))
    }

    /// The session after the moving piece has settled where it is: its cells
    /// are fixed, the complete rows are gone, and score and level have been
    /// brought up to date. No piece is moving.
    pub open spec fn landed(self) -> Session {
        let count = self.landing_count();
        let in_level = self.rows_completed_level + count;
        Session {
            rows: collapsed(stamp_shape(self.rows, self.shape, self.col, self.row, Stamp::Fix)),
            score: self.score + score_factor(count) * (self.level + 1),
            rows_completed: self.rows_completed + count,
            rows_completed_level: if in_level > ROWS_PER_LEVEL {
                0
            } else {
                in_level
            },
            level: if in_level > ROWS_PER_LEVEL {
                self.level + 1
            } else {
                self.level
            },
            ..self
        }
    }

    /// Whether the piece that is next fits where pieces enter.
    pub open spec fn spawn_fits(self) -> bool {
        valid_location(self.rows, catalog(self.next_shape_index), SPAWN_COL as int, 0, true)
    }

    /// The session after the piece that was next has become the moving piece,
    /// with `next` as the piece after it. The piece is drawn only if it fits.
    pub open spec fn spawned(self, next: int) -> Session {
        let shape = catalog(self.next_shape_index);
        Session {
            rows: if self.spawn_fits() {
                drawn(self.rows, shape, self.next_shape_index, SPAWN_COL as int, 0)
            } else {
                self.rows
            },
            shape,
            shape_index: self.next_shape_index,
            col: SPAWN_COL as int,
            row: 0,
            ghost_row: if self.spawn_fits() {
                landing_row(self.rows, shape, SPAWN_COL as int, 0)
            } else {
                self.ghost_row
            },
            next_shape: catalog(next),
            next_shape_index: next,
            ..self
        }
    }

    /// Whether a tick makes the moving piece settle.
    pub open spec fn lands(self) -> bool {
        !self.game_over && !self.can_move_to(self.col, self.row + 1)
    }

    /// Whether score, level and row count can take what a tick adds to them.
    pub open spec fn tick_fits(self) -> bool {
        self.lands() ==> {
            &&& self.level + 1 <= u32::MAX
            &&& self.score + score_factor(self.landing_count()) * (self.level + 1) <= u32::MAX
            &&& self.rows_completed + self.landing_count() <= u32::MAX
        }
    }

    /// A bound on the counters under which every tick fits, whatever it clears.
    pub open spec fn has_headroom(self) -> bool {
        &&& self.level + 1 <= u32::MAX
        &&& self.score + 1200 * (self.level + 1) <= u32::MAX
        &&& self.rows_completed + ROW_COUNT <= u32::MAX
    }

    /// The session after a tick, with `next` as the piece that is to follow
    /// the one that enters when the moving piece settles. The moving piece goes
    /// down a row if it can. If it cannot, it settles, and the next piece
    /// enters; if that piece does not fit, the game is over.
    pub open spec fn ticked(self, next: int) -> Session {
        if self.game_over {
            self
        } else if self.can_move_to(self.col, self.row + 1) {
            self.moved_to(self.col, self.row + 1)
        } else {
            Session { game_over: !self.landed().spawn_fits(), ..self.landed().spawned(next) }
        }
    }

    /// The session after the start of a game in which `first` is the first
    /// piece and `next` the second. A game that is in play goes on as it is.
    pub open spec fn started(self, first: int, next: int) -> Session {
        if self.game_over {
            (Session {
                rows: empty_rows(),
                game_over: false,
                level: 0,
                score: 0,
                rows_completed: 0,
                rows_completed_level: 0,
                next_shape: catalog(first),
                next_shape_index: first,
                ..self
            }).spawned(next)
        } else {
            self
        }
    }
}

} // verus!
