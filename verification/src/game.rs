//! The game itself: a board, a moving piece, and the commands that drive them.
use vstd::prelude::*;
use crate::cells::{GridCell, GridCellType, Stamp, stamp_allowed};
use crate::shapes::{
    catalog, COL_COUNT, is_shape_index, lemma_catalog_ok, lemma_turned_ok, oriented, Point,
    rotate_shape, ROW_COUNT, ROWS_PER_LEVEL, SHAPE_COUNT, shape_ok, shape_points, SPAWN_COL,
    SQUARE_SHAPE_INDEX, turned,
};
use crate::board::{
    covers, covers_first, fixed_at, hits, in_bounds, landing_row, lemma_same_fixed_landing,
    lemma_same_fixed_valid, point_fits, same_fixed, stamp_first, stamp_shape, valid_location,
};
use crate::lines::{
    collapsed, full_row_count, lemma_kept_len, lemma_nothing_to_clear, lemma_one_clear, one_clear,
    row_full, void_row,
};
use crate::session::{
    all_settled, drawn, empty_rows, kick_column, kicked_column, score_factor, Session, settled_at,
    tick_millis,
};
use crate::invariants::{
    lemma_covered_is_free, lemma_empty_board, lemma_headroom, lemma_landed, lemma_lifted,
    lemma_move_identity, lemma_move_twice, lemma_moved_wf, lemma_rotated_wf, lemma_started_wf,
    lemma_ticked_wf,
};
use crate::random::{gen_range, thread_rng};

verus! {

/// A cell was asked for that is not on the board.
#[derive(Copy, Clone, Debug, PartialEq, Eq, Structural)]
pub struct OutOfRange {
    /// The column that was asked for.
    pub col: i32,
    /// The row that was asked for.
    pub row: i32,
}

/// `Tetris` holds a game: the board, the moving piece, the piece that comes
/// next, score and level. Each call of `tick` takes the moving piece down a
/// row. When it cannot go further it settles on the board, complete rows are
/// cleared, and the next piece, chosen at random, enters. To draw the board,
/// ask `get_grid_cell` for each cell.
pub struct Tetris {
    /// The board, top row first.
    grid: [[GridCell; 10]; 22],
    /// Whether the game is over, or has not begun.
    game_over: bool,
    /// The moving piece, as it is turned now.
    shape: [Point; 4],
    /// The piece that enters next, see also `next_shape_index`.
    next_shape: [Point; 4],
    /// The column of the moving piece.
    col: i32,
    /// The row of the moving piece.
    row: i32,
    /// The row at which the shadow of the moving piece was last drawn.
    ghost_row: i32,
    /// The index of the moving piece in the catalog.
    shape_index: i32,
    /// The index of the next piece in the catalog.
    next_shape_index: i32,
    /// The level of play.
    level: u32,
    /// The rows completed since the level began.
    rows_completed_level: u8,
    /// The score.
    score: u32,
    /// The rows completed since the game began.
    rows_completed: u32,
    /// The source of random numbers.
    rng: rand::ThreadRng,
}

impl View for Tetris {
    type V = Session;

    closed spec fn view(&self) -> Session {
        Session {
            rows: Seq::new(ROW_COUNT as nat, |r: int| self.grid@[r]@),
            game_over: self.game_over,
            shape: self.shape@,
            shape_index: self.shape_index as int,
            col: self.col as int,
            row: self.row as int,
            ghost_row: self.ghost_row as int,
            next_shape: self.next_shape@,
            next_shape_index: self.next_shape_index as int,
            level: self.level as int,
            rows_completed_level: self.rows_completed_level as int,
            score: self.score as int,
            rows_completed: self.rows_completed as int,
        }
    }
}

/// Whether (`col`, `row`) is near enough to the board for the arithmetic on
/// anchors and points to stay within its limits.
spec fn near_board(col: int, row: int) -> bool {
    -100 <= col <= 100 && -100 <= row <= 100
}

impl Tetris {
    /// A new game, not yet started: the board is empty and the game is over.
    pub fn new() -> (game: Tetris)
        ensures
            game@ == Session::initial(),
            game@.wf(),
    {
        let game = Tetris {
            grid: [[GridCell::default(); 10]; 22],
            game_over: true,
            shape_index: 0,
            next_shape_index: 0,
            shape: shape_points(0),
            next_shape: shape_points(0),
            col: 0,
            row: 0,
            ghost_row: 0,
            level: 0,
            score: 0,
            rows_completed: 0,
            rows_completed_level: 0,
            rng: thread_rng(),
        };
        proof {
            lemma_catalog_ok(0);
            assert(game@.shape == oriented(0, 0));
            assert(game@.rows =~~= empty_rows());
        }
        game
    }

    /// Whether the game is over: no piece is moving, and none enters until a
    /// new game is started.
    pub fn get_game_over(&self) -> (over: bool)
        ensures
            over == self@.game_over,
    {
        self.game_over
    }

    /// The cell at column `col`, row `row`. Both have to be on the board.
    pub fn get_grid_cell(&self, col: i32, row: i32) -> (cell: GridCell)
        requires
            in_bounds(col as int, row as int),
        ensures
            cell == self@.rows[row as int][col as int],
    {
        self.grid[row as usize][col as usize]
    }

    /// The cell at column `col`, row `row`, or an error if there is no such
    /// cell on the board.
    pub fn cell_at(&self, col: i32, row: i32) -> (cell: Result<GridCell, OutOfRange>)
        ensures
            in_bounds(col as int, row as int) ==> cell == Ok::<GridCell, OutOfRange>(
                self@.rows[row as int][col as int],
            ),
            !in_bounds(col as int, row as int) ==> cell == Err::<GridCell, OutOfRange>(
                OutOfRange { col, row },
            ),
    {
        if 0 <= col && col < COL_COUNT as i32 && 0 <= row && row < ROW_COUNT as i32 {
            Ok(self.get_grid_cell(col, row))
        } else {
            Err(OutOfRange { col, row })
        }
    }

    /// The column of the moving piece. Add the `x` of each point of the piece
    /// to it for the column of that point.
    pub fn get_col(&self) -> (col: i32)
        ensures
            col == self@.col,
    {
        self.col
    }

    /// Takes the moving piece to column `col`, if a game is in play, the
    /// column is on the board, and the piece fits there. Says whether it did;
    /// if it did not, nothing has changed.
    pub fn set_col(&mut self, col: i32) -> (moved: bool)
        requires
            old(self)@.wf(),
        ensures
            final(self)@.wf(),
            moved == old(self)@.can_move_to(col as int, old(self)@.row),
            final(self)@ == if moved {
                old(self)@.moved_to(col as int, old(self)@.row)
            } else {
                old(self)@
            },
    {
        if !self.game_over {
            let result: bool = col >= 0 && col < COL_COUNT as i32 && self.valid_location(
                self.shape,
                col,
                self.row,
                true,
            );
            if result {
                let use_row = self.row;
                self.move_shape(col, use_row, true);
                self.col = col;
                proof {
                    lemma_moved_wf(old(self)@, col as int, use_row as int);
                }
            }
            result
        } else {
            false
        }
    }

    /// The row of the moving piece. Add the `y` of each point of the piece to
    /// it for the row of that point.
    pub fn get_row(&self) -> (row: i32)
        ensures
            row == self@.row,
    {
        self.row
    }

    /// Takes the moving piece to row `row`, if a game is in play, the row is
    /// on the board, and the piece fits there. Says whether it did; if it did
    /// not, nothing has changed.
    pub fn set_row(&mut self, row: i32) -> (moved: bool)
        requires
            old(self)@.wf(),
        ensures
            final(self)@.wf(),
            moved == old(self)@.can_move_to(old(self)@.col, row as int),
            final(self)@ == if moved {
                old(self)@.moved_to(old(self)@.col, row as int)
            } else {
                old(self)@
            },
    {
        if !self.game_over {
            let result: bool = row >= 0 && row < ROW_COUNT as i32 && self.valid_location(
                self.shape,
                self.col,
                row,
                true,
            );
            if result {
                let use_col = self.col;
                self.move_shape(use_col, row, true);
                self.row = row;
                proof {
                    lemma_moved_wf(old(self)@, use_col as int, row as int);
                }
            }
            result
        } else {
            false
        }
    }

    /// Takes the moving piece by `delta_col` columns and `delta_row` rows, if
    /// a game is in play, the place is on the board, and the piece fits
    /// there. Says whether it did; if it did not, nothing has changed.
    pub fn try_move(&mut self, delta_col: i32, delta_row: i32) -> (moved: bool)
        requires
            old(self)@.wf(),
        ensures
            final(self)@.wf(),
            moved == old(self)@.can_move_to(old(self)@.col + delta_col, old(self)@.row + delta_row),
            final(self)@ == if moved {
                old(self)@.moved_to(old(self)@.col + delta_col, old(self)@.row + delta_row)
            } else {
                old(self)@
            },
    {
        if self.game_over {
            return false;
        }
        let col: i64 = self.col as i64 + delta_col as i64;
        let row: i64 = self.row as i64 + delta_row as i64;
        if 0 <= col && col < COL_COUNT as i64 && 0 <= row && row < ROW_COUNT as i64
            && self.valid_location(self.shape, col as i32, row as i32, true) {
            self.move_shape(col as i32, row as i32, true);
            self.col = col as i32;
            self.row = row as i32;
            proof {
                lemma_moved_wf(old(self)@, col as int, row as int);
            }
            true
        } else {
            false
        }
    }

    /// Lets the moving piece fall as far as it can, row by row. It does not
    /// settle: that is left to the next tick. Says whether a game is in play;
    /// if none is, nothing has changed.
    pub fn hard_drop(&mut self) -> (dropped: bool)
        requires
            old(self)@.wf(),
        ensures
            final(self)@.wf(),
            dropped == !old(self)@.game_over,
            final(self)@ == old(self)@.dropped(),
    {
        if self.game_over {
            return false;
        }
        let ghost start = self@;
        proof {
            lemma_move_identity(start);
        }
        loop
            invariant
                start.wf(),
                !start.game_over,
                self@.wf(),
                start.can_move_to(start.col, self@.row),
                self@ == start.moved_to(start.col, self@.row),
                landing_row(start.rows, start.shape, start.col, self@.row) == start.ghost_row,
            ensures
                self@.wf(),
                self@ == start.moved_to(start.col, start.ghost_row),
            decreases ROW_COUNT - self.row,
        {
            let ghost here = self@;
            let row = self.row + 1;
            proof {
                lemma_move_twice(start, start.col, here.row, start.col, row as int);
            }
            if !self.set_row(row) {
                break ;
            }
        }
        true
    }

    /// The score.
    pub fn get_score(&self) -> (score: u32)
        ensures
            score == self@.score,
    {
        self.score
    }

    /// The level of play.
    pub fn get_level(&self) -> (level: u32)
        ensures
            level == self@.level,
    {
        self.level
    }

    /// The number of rows completed since the game began.
    pub fn get_rows_completed(&self) -> (rows: u32)
        ensures
            rows == self@.rows_completed,
    {
        self.rows_completed
    }

    /// The points of the piece that enters next.
    pub fn get_next_shape(&self) -> (shape: [Point; 4])
        ensures
            shape@ == self@.next_shape,
    {
        self.next_shape
    }

    /// The index of the piece that enters next.
    pub fn get_next_shape_index(&self) -> (index: i32)
        ensures
            index == self@.next_shape_index,
    {
        self.next_shape_index
    }

    /// Turns the moving piece by a quarter, clockwise or counter-clockwise,
    /// kicking it off a wall where that makes room. Says whether the piece was
    /// turned; if it was not, nothing has changed. The square is never turned.
    pub fn rotate(&mut self, clockwise: bool) -> (turned: bool)
        requires
            old(self)@.wf(),
        ensures
            final(self)@.wf(),
            turned == old(self)@.rotation_column(clockwise).is_some(),
            final(self)@ == old(self)@.rotated(clockwise),
            old(self)@.shape_index == SQUARE_SHAPE_INDEX ==> !turned && final(self)@ == old(self)@,
    {
        // There is no need to turn the square: it is symmetrical.
        if self.game_over || self.shape_index == SQUARE_SHAPE_INDEX {
            return false;
        }
        // Turn a copy of the moving piece.
        let mut shape = self.shape;
        rotate_shape(clockwise, &mut shape);
        proof {
            lemma_turned_ok(self.shape@, clockwise);
        }
        // The sides are not looked at here: a wall kick can mend them.
        if !self.valid_location(shape, self.col, self.row, false) {
            return false;
        }
        match self.wall_kick(shape) {
            Some(col) => {
                self.replace_shape(shape, col);
                proof {
                    lemma_rotated_wf(old(self)@, clockwise);
                }
                true
            },
            None => false,
        }
    }

    /// Starts a new game with pieces drawn at random, if no game is in play:
    /// the board is emptied, score and level start from zero, and the first
    /// piece enters. A game that is in play goes on as it is.
    pub fn start_game(&mut self)
        requires
            old(self)@.wf(),
        ensures
            final(self)@.wf(),
            !final(self)@.game_over,
            exists|first: int, next: int|
                is_shape_index(first) && is_shape_index(next) && final(self)@ == old(self)@.started(
                    first,
                    next,
                ),
    {
        if self.game_over {
            let first = gen_range(&mut self.rng, 0, SHAPE_COUNT as i32);
            let next = gen_range(&mut self.rng, 0, SHAPE_COUNT as i32);
            self.start_game_with(first, next);
        } else {
            assert(self@ == old(self)@.started(0, 0));
        }
    }

    /// Starts a new game in which `first` is the first piece and `next` the
    /// second, if no game is in play: the board is emptied, score and level
    /// start from zero, and the first piece enters. A game that is in play
    /// goes on as it is.
    pub fn start_game_with(&mut self, first: i32, next: i32)
        requires
            old(self)@.wf(),
            is_shape_index(first as int),
            is_shape_index(next as int),
        ensures
            final(self)@.wf(),
            !final(self)@.game_over,
            final(self)@ == old(self)@.started(first as int, next as int),
    {
        proof {
            lemma_started_wf(self@, first as int, next as int);
        }
        if self.game_over {
            self.game_over = false;
            self.level = 0;
            self.score = 0;
            self.rows_completed = 0;
            self.rows_completed_level = 0;
            self.clear_grid();
            self.next_shape_index = first;
            self.next_shape = shape_points(self.next_shape_index);
            proof {
                lemma_empty_board(first as int);
            }
            // Put the first piece on the board.
            self.new_shape(next);
        }
    }

    /// Advances the game by one step, with a piece drawn at random to follow
    /// the one that enters if the moving piece settles. See `tick_with`.
    pub fn tick(&mut self)
        requires
            old(self)@.wf(),
            old(self)@.tick_fits(),
        ensures
            final(self)@.wf(),
            exists|next: int| is_shape_index(next) && final(self)@ == old(self)@.ticked(next),
    {
        // A piece is drawn only when one is about to enter.
        let next = if self.lands() {
            gen_range(&mut self.rng, 0, SHAPE_COUNT as i32)
        } else {
            self.next_shape_index
        };
        self.tick_with(next);
    }

    /// Advances the game by one step. The moving piece goes down a row. If it
    /// cannot, it settles where it is, complete rows are cleared and scored,
    /// the level goes up when enough rows have been completed, and the next
    /// piece enters, with `next_shape_index` as the piece to follow it. If the
    /// piece that enters does not fit, the game is over. Nothing happens
    /// unless a game is in play.
    pub fn tick_with(&mut self, next_shape_index: i32)
        requires
            old(self)@.wf(),
            old(self)@.tick_fits(),
            is_shape_index(next_shape_index as int),
        ensures
            final(self)@.wf(),
            final(self)@ == old(self)@.ticked(next_shape_index as int),
    {
        proof {
            lemma_ticked_wf(self@, next_shape_index as int);
        }
        if !self.game_over {
            let new_row = self.row + 1;
            // If the piece cannot go down a row...
            if !self.set_row(new_row) {
                proof {
                    lemma_landed(self@);
                }
                // ...it settles where it is,
                self.shape_to_grid();
                // ...and the rows that it completed go.
                let rows = self.complete_rows();
                let factor: u32 = match rows {
                    1 => 40,
                    2 => 100,
                    3 => 300,
                    4 => 1200,
                    _ => 0,
                };
                assert(factor == score_factor(rows as int));
                self.score += factor * (self.level + 1);
                // Enough rows for a new level?
                if self.rows_completed_level > ROWS_PER_LEVEL {
                    self.rows_completed_level = 0;
                    self.level += 1;
                }
                assert(self@ == old(self)@.landed());
                // Now the next piece enters.
                if !self.new_shape(next_shape_index) {
                    self.end_game();
                }
            }
        }
    }

    /// Whether the counters have room for whatever a tick may add to them. If
    /// they have, a tick fits.
    pub fn has_headroom(&self) -> (roomy: bool)
        requires
            self@.wf(),
        ensures
            roomy == self@.has_headroom(),
            roomy ==> self@.tick_fits(),
    {
        let roomy = self.level < u32::MAX && self.score as u64 + 1200 * (self.level as u64 + 1)
            <= u32::MAX as u64 && self.rows_completed <= u32::MAX - ROW_COUNT as u32;
        proof {
            if roomy {
                lemma_headroom(self@);
            }
        }
        roomy
    }

    /// The time from one tick to the next at the level of the game, in
    /// milliseconds. It grows shorter as the level goes up.
    pub fn get_tick_millis(&self) -> (millis: i64)
        ensures
            millis == tick_millis(self@.level),
    {
        if self.level < 10 {
            1000 - 80 * self.level as i64
        } else {
            250 - 12 * (self.level as i64 - 10)
        }
    }

    /// Ends the game. The board stays as it is, so that it can still be drawn.
    pub fn end_game(&mut self)
        ensures
            final(self)@ == (Session { game_over: true, ..old(self)@ }),
            old(self)@.wf() ==> final(self)@.wf(),
    {
        self.game_over = true;
    }
}

impl Tetris {
    /// Empties the board.
    fn clear_grid(&mut self)
        ensures
            final(self)@ == (Session { rows: empty_rows(), ..old(self)@ }),
    {
        self.grid = [[GridCell::default(); 10]; 22];
        assert(self@.rows =~~= empty_rows());
    }

    /// Puts the next piece on the board where pieces enter, and makes
    /// `next_shape_index` the piece after it. Says whether the piece fits;
    /// one that does not is not drawn.
    fn new_shape(&mut self, next_shape_index: i32) -> (fits: bool)
        requires
            old(self)@.at_rest(),
            is_shape_index(next_shape_index as int),
        ensures
            fits == old(self)@.spawn_fits(),
            final(self)@ == old(self)@.spawned(next_shape_index as int),
    {
        self.row = 0;
        self.col = SPAWN_COL;
        self.shape_index = self.next_shape_index;
        self.next_shape_index = next_shape_index;
        self.next_shape = shape_points(self.next_shape_index);
        self.shape = shape_points(self.shape_index);
        proof {
            lemma_catalog_ok(self.shape_index as int);
        }
        let result: bool = self.valid_location(self.shape, self.col, self.row, true);
        if result {
            let use_col = self.col;
            let use_row = self.row;
            // Nothing to take off the board: the piece was not on it yet.
            self.move_shape(use_col, use_row, false);
        }
        result
    }

    /// The place on the board of a point of a piece anchored at (`col`, `row`).
    /// It may lie outside the board.
    fn transform_point(&self, col: i32, row: i32, point: Point) -> (at: Point)
        requires
            near_board(col as int, row as int),
            -2 <= point.x <= 2,
            -2 <= point.y <= 2,
        ensures
            at.x == col + point.x,
            at.y == row + point.y,
    {
        Point { x: col as i16 + point.x, y: row as i16 + point.y }
    }

    /// Whether a point of a piece anchored at (`col`, `row`) lies on the board.
    fn point_in_bounds(&self, col: i32, row: i32, point: Point) -> (inside: bool)
        requires
            near_board(col as int, row as int),
            -2 <= point.x <= 2,
            -2 <= point.y <= 2,
        ensures
            inside == in_bounds(col + point.x, row + point.y),
    {
        let grid_point = self.transform_point(col, row, point);
        grid_point.x >= 0 && grid_point.x < COL_COUNT as i16 && grid_point.y >= 0 && grid_point.y
            < ROW_COUNT as i16
    }

    /// Whether `shape` can stand with its anchor at (`col`, `row`). Points
    /// above the board are in order; points beside it are in order unless
    /// `check_sides` is set.
    fn valid_location(&self, shape: [Point; 4], col: i32, row: i32, check_sides: bool) -> (fits:
        bool)
        requires
            shape_ok(shape@),
            near_board(col as int, row as int),
        ensures
            fits == valid_location(self@.rows, shape@, col as int, row as int, check_sides),
    {
        let mut result: bool = true;
        let mut i: usize = 0;
        while i < 4
            invariant_except_break
                result,
            invariant
                i <= 4,
                shape_ok(shape@),
                near_board(col as int, row as int),
                forall|k: int|
                    0 <= k < i ==> point_fits(
                        self@.rows,
                        #[trigger] shape@[k],
                        col as int,
                        row as int,
                        check_sides,
                    ),
            ensures
                result == valid_location(self@.rows, shape@, col as int, row as int, check_sides),
            decreases 4 - i,
        {
            let point = shape[i];
            let grid_point = self.transform_point(col, row, point);
            if (check_sides && (grid_point.x < 0 || grid_point.x >= COL_COUNT as i16))
                || grid_point.y >= ROW_COUNT as i16 || (self.point_in_bounds(col, row, point)
                && self.grid[grid_point.y as usize][grid_point.x as usize].cell_type
                == GridCellType::Fixed) {
                result = false;
                assert(!point_fits(
                    self@.rows,
                    shape@[i as int],
                    col as int,
                    row as int,
                    check_sides,
                ));
                break ;
            }
            i += 1;
        }
        result
    }

    /// Applies `stamp` to each cell of the board under a point of `shape`
    /// anchored at (`col`, `row`).
    fn for_each_cell(&mut self, shape: [Point; 4], col: i32, row: i32, stamp: Stamp)
        requires
            shape_ok(shape@),
            near_board(col as int, row as int),
            forall|c: int, r: int|
                in_bounds(c, r) && covers(shape@, col as int, row as int, c, r) ==> stamp_allowed(
                    #[trigger] old(self)@.rows[r][c],
                    stamp,
                ),
        ensures
            final(self)@ == (Session {
                rows: stamp_shape(old(self)@.rows, shape@, col as int, row as int, stamp),
                ..old(self)@
            }),
    {
        let ghost before = self@;
        let mut i: usize = 0;
        assert(self@.rows =~~= stamp_first(before.rows, shape@, 0, col as int, row as int, stamp));
        while i < 4
            invariant
                i <= 4,
                shape_ok(shape@),
                near_board(col as int, row as int),
                before == old(self)@,
                forall|c: int, r: int|
                    in_bounds(c, r) && covers(shape@, col as int, row as int, c, r)
                        ==> stamp_allowed(#[trigger] before.rows[r][c], stamp),
                self@ == (Session {
                    rows: stamp_first(before.rows, shape@, i as int, col as int, row as int, stamp),
                    ..before
                }),
            decreases 4 - i,
        {
            let point = shape[i];
            let ghost mid = self@;
            let ghost done = stamp_first(
                before.rows,
                shape@,
                i as int,
                col as int,
                row as int,
                stamp,
            );
            let ghost goal = stamp_first(
                before.rows,
                shape@,
                i + 1,
                col as int,
                row as int,
                stamp,
            );
            if self.point_in_bounds(col, row, point) {
                let grid_point = self.transform_point(col, row, point);
                let x = grid_point.x as usize;
                let y = grid_point.y as usize;
                let cell = self.grid[y][x];
                proof {
                    // The points of a piece are all different, so no earlier
                    // point has touched this cell.
                    assert(hits(shape@[i as int], col as int, row as int, x as int, y as int));
                    assert(!covers_first(
                        shape@,
                        i as int,
                        col as int,
                        row as int,
                        x as int,
                        y as int,
                    ));
                    assert(cell == mid.rows[y as int][x as int]);
                    assert(mid.rows[y as int][x as int] == done[y as int][x as int]);
                    assert(cell == before.rows[y as int][x as int]);
                    assert(covers(shape@, col as int, row as int, x as int, y as int));
                    assert(stamp_allowed(cell, stamp));
                }
                self.grid[y][x] = cell.stamp(stamp);
                proof {
                    assert forall|r: int| 0 <= r < ROW_COUNT implies #[trigger] self@.rows[r]
                        =~= goal[r] by {
                        assert forall|c: int| 0 <= c < COL_COUNT implies #[trigger] self@.rows[r][c]
                            == goal[r][c] by {
                            assert(mid.rows[r][c] == done[r][c]);
                            if r == y && c == x {
                            } else {
                                assert(self@.rows[r][c] == mid.rows[r][c]);
                                assert(!hits(shape@[i as int], col as int, row as int, c, r));
                            }
                        }
                    }
                }
            } else {
                proof {
                    assert forall|r: int| 0 <= r < ROW_COUNT implies #[trigger] self@.rows[r]
                        =~= goal[r] by {
                        assert forall|c: int| 0 <= c < COL_COUNT implies #[trigger] self@.rows[r][c]
                            == goal[r][c] by {
                            assert(mid.rows[r][c] == done[r][c]);
                            assert(!hits(shape@[i as int], col as int, row as int, c, r));
                        }
                    }
                }
            }
            i += 1;
            assert(self@.rows =~= goal);
        }
    }

    /// Puts the moving piece on the board at (`col`, `row`), and its shadow
    /// where it would land from there. With `clear_before` the piece is first
    /// taken off the board where it stands.
    fn move_shape(&mut self, col: i32, row: i32, clear_before: bool)
        requires
            clear_before ==> old(self)@.wf() && !old(self)@.game_over,
            !clear_before ==> shape_ok(old(self)@.shape) && all_settled(old(self)@.rows),
            near_board(col as int, row as int),
            valid_location(old(self)@.rows, old(self)@.shape, col as int, row as int, true),
        ensures
            final(self)@ == (Session {
                rows: drawn(
                    if clear_before {
                        old(self)@.lifted()
                    } else {
                        old(self)@.rows
                    },
                    old(self)@.shape,
                    old(self)@.shape_index,
                    col as int,
                    row as int,
                ),
                ghost_row: landing_row(old(self)@.rows, old(self)@.shape, col as int, row as int),
                ..old(self)@
            }),
    {
        let ghost before = self@;
        let ghost base = if clear_before {
            before.lifted()
        } else {
            before.rows
        };
        if clear_before {
            self.clear_shape();
        }
        let use_shape = self.shape;
        let use_shape_index = self.shape_index;
        proof {
            if clear_before {
                lemma_lifted(before);
            }
            assert(same_fixed(before.rows, base));
            lemma_same_fixed_valid(before.rows, base, use_shape@, col as int, row as int, true);
            lemma_same_fixed_landing(before.rows, base, use_shape@, col as int, row as int);
            assert forall|c: int, r: int|
                in_bounds(c, r) && covers(use_shape@, col as int, row as int, c, r)
                    implies stamp_allowed(
                #[trigger] self@.rows[r][c],
                Stamp::Place(use_shape_index),
            ) by {
                assert(settled_at(base, c, r));
                lemma_covered_is_free(base, use_shape@, col as int, row as int, c, r);
            }
        }
        self.for_each_cell(use_shape, col, row, Stamp::Place(use_shape_index));
        let ghost placed = self@.rows;
        proof {
            assert forall|c: int, r: int| in_bounds(c, r) implies #[trigger] fixed_at(base, c, r)
                == fixed_at(placed, c, r) by {
                assert(settled_at(base, c, r));
                if covers(use_shape@, col as int, row as int, c, r) {
                    lemma_covered_is_free(base, use_shape@, col as int, row as int, c, r);
                }
            }
            assert(same_fixed(base, placed));
            lemma_same_fixed_valid(base, placed, use_shape@, col as int, row as int, true);
            lemma_same_fixed_landing(base, placed, use_shape@, col as int, row as int);
        }
        // Find the row at which the shadow of the piece is drawn.
        self.ghost_row = row;
        loop
            invariant
                use_shape == self.shape,
                shape_ok(use_shape@),
                near_board(col as int, row as int),
                row <= self.ghost_row < ROW_COUNT,
                valid_location(placed, use_shape@, col as int, self.ghost_row as int, true),
                landing_row(placed, use_shape@, col as int, self.ghost_row as int) == landing_row(
                    placed,
                    use_shape@,
                    col as int,
                    row as int,
                ),
                self@ == (Session { rows: placed, ghost_row: self.ghost_row as int, ..before }),
            ensures
                self.ghost_row == landing_row(placed, use_shape@, col as int, row as int),
            decreases ROW_COUNT - self.ghost_row,
        {
            if self.valid_location(self.shape, col, self.ghost_row + 1, true) {
                self.ghost_row += 1;
            } else {
                break ;
            }
        }
        let use_ghost_row = self.ghost_row;
        self.for_each_cell(use_shape, col, use_ghost_row, Stamp::Shade);
    }

    /// Takes the moving piece, and its shadow, off the board.
    fn clear_shape(&mut self)
        requires
            old(self)@.wf(),
            !old(self)@.game_over,
        ensures
            final(self)@ == (Session { rows: old(self)@.lifted(), ..old(self)@ }),
    {
        let use_shape = self.shape;
        let use_col = self.col;
        let use_row = self.row;
        proof {
            assert forall|c: int, r: int|
                in_bounds(c, r) && covers(use_shape@, use_col as int, use_row as int, c, r)
                    implies stamp_allowed(#[trigger] self@.rows[r][c], Stamp::Lift) by {
                assert(self@.cell_in_play(c, r));
            }
        }
        self.for_each_cell(use_shape, use_col, use_row, Stamp::Lift);
        let use_ghost_row = self.ghost_row;
        self.for_each_cell(use_shape, use_col, use_ghost_row, Stamp::Unshade);
    }

    /// Puts `shape` in the place of the moving piece, at column `col` of the
    /// row in which the piece stands.
    fn replace_shape(&mut self, shape: [Point; 4], col: i32)
        requires
            old(self)@.wf(),
            !old(self)@.game_over,
            shape_ok(shape@),
            valid_location(old(self)@.rows, shape@, col as int, old(self)@.row, true),
        ensures
            final(self)@ == (Session {
                rows: drawn(
                    old(self)@.lifted(),
                    shape@,
                    old(self)@.shape_index,
                    col as int,
                    old(self)@.row,
                ),
                shape: shape@,
                col: col as int,
                ghost_row: landing_row(old(self)@.rows, shape@, col as int, old(self)@.row),
                ..old(self)@
            }),
    {
        let ghost before = self@;
        let ghost base = before.lifted();
        proof {
            lemma_lifted(before);
            lemma_same_fixed_valid(before.rows, base, shape@, col as int, before.row, true);
            lemma_same_fixed_landing(before.rows, base, shape@, col as int, before.row);
        }
        // The piece itself changes, not only its place: it is taken off the
        // board as it was and put back as it is now.
        self.clear_shape();
        self.shape = shape;
        self.col = col;
        let use_row = self.row;
        self.move_shape(col, use_row, false);
    }

    /// Settles the moving piece on the board where it stands: each of its
    /// cells becomes a fixed cell.
    fn shape_to_grid(&mut self)
        requires
            old(self)@.wf(),
            !old(self)@.game_over,
        ensures
            final(self)@ == (Session {
                rows: stamp_shape(
                    old(self)@.rows,
                    old(self)@.shape,
                    old(self)@.col,
                    old(self)@.row,
                    Stamp::Fix,
                ),
                ..old(self)@
            }),
    {
        let use_shape = self.shape;
        let use_col = self.col;
        let use_row = self.row;
        proof {
            assert forall|c: int, r: int|
                in_bounds(c, r) && covers(use_shape@, use_col as int, use_row as int, c, r)
                    implies stamp_allowed(#[trigger] self@.rows[r][c], Stamp::Fix) by {
                assert(self@.cell_in_play(c, r));
            }
        }
        self.for_each_cell(use_shape, use_col, use_row, Stamp::Fix);
    }

    /// Whether row `row` of the board is complete: it has no void cell.
    fn row_is_full(&self, row: usize) -> (full: bool)
        requires
            row < ROW_COUNT,
        ensures
            full == row_full(self@.rows[row as int]),
    {
        let mut found_void = false;
        let mut col: usize = 0;
        while col < COL_COUNT as usize
            invariant_except_break
                !found_void,
            invariant
                row < ROW_COUNT,
                col <= COL_COUNT,
                forall|c: int|
                    0 <= c < col ==> (#[trigger] self@.rows[row as int][c]).cell_type
                        != GridCellType::Void,
            ensures
                found_void == !row_full(self@.rows[row as int]),
            decreases COL_COUNT - col,
        {
            if self.grid[row][col].cell_type == GridCellType::Void {
                found_void = true;
                assert(self@.rows[row as int][col as int].cell_type == GridCellType::Void);
                break ;
            }
            col += 1;
        }
        !found_void
    }

    /// Takes the complete row `row` out of the board: the row is emptied and
    /// every row above it moves down by one, from the bottom up so that no
    /// row is overwritten before it has moved. The top row has nowhere to move
    /// from and stays; if it is complete it is emptied, since a complete row
    /// left at the top would be copied down and cleared without end.
    fn clear_row(&mut self, row: usize)
        requires
            row < ROW_COUNT,
            row_full(old(self)@.rows[row as int]),
        ensures
            final(self)@ == (Session {
                rows: one_clear(old(self)@.rows, row as int),
                ..old(self)@
            }),
    {
        let ghost before = self@;
        let top_full = self.row_is_full(0);
        self.grid[row] = [GridCell::default(); 10];
        assert(self@.rows[row as int] =~= void_row());
        let mut temp_row: usize = row;
        while temp_row > 0
            invariant
                temp_row <= row < ROW_COUNT,
                self@ == (Session { rows: self@.rows, ..before }),
                forall|r: int|
                    0 <= r < ROW_COUNT ==> #[trigger] self@.rows[r] == if temp_row < r <= row {
                        before.rows[r - 1]
                    } else if r == row {
                        void_row()
                    } else {
                        before.rows[r]
                    },
            decreases temp_row,
        {
            let ghost mid = self@.rows;
            self.grid[temp_row] = self.grid[temp_row - 1];
            assert forall|r: int| 0 <= r < ROW_COUNT implies #[trigger] self@.rows[r] == if r
                == temp_row {
                mid[temp_row - 1]
            } else {
                mid[r]
            } by {}
            temp_row -= 1;
        }
        if top_full {
            let ghost mid = self@.rows;
            self.grid[0] = [GridCell::default(); 10];
            assert(self@.rows[0] =~= void_row());
            assert forall|r: int| 0 < r < ROW_COUNT implies #[trigger] self@.rows[r] == mid[r] by {}
        }
        assert(self@.rows =~= one_clear(before.rows, row as int));
    }

    /// Clears the rows that are complete, and lets the rows above them come
    /// down. Counts each row that goes. Says how many went.
    fn complete_rows(&mut self) -> (count: u8)
        requires
            old(self)@.rows_completed + full_row_count(old(self)@.rows) <= u32::MAX,
            old(self)@.rows_completed_level + full_row_count(old(self)@.rows) <= u8::MAX,
        ensures
            count == full_row_count(old(self)@.rows),
            final(self)@ == (Session {
                rows: collapsed(old(self)@.rows),
                rows_completed: old(self)@.rows_completed + count,
                rows_completed_level: old(self)@.rows_completed_level + count,
                ..old(self)@
            }),
    {
        let ghost before = self@;
        let mut result: u8 = 0;
        let mut row: i32 = ROW_COUNT as i32 - 1;
        proof {
            lemma_kept_len(before.rows);
        }
        while row >= 0
            invariant
                -1 <= row < ROW_COUNT,
                0 <= before.rows_completed,
                0 <= before.rows_completed_level,
                before.rows_completed + full_row_count(before.rows) <= u32::MAX,
                before.rows_completed_level + full_row_count(before.rows) <= u8::MAX,
                0 <= full_row_count(self@.rows),
                result + full_row_count(self@.rows) == full_row_count(before.rows),
                collapsed(self@.rows) == collapsed(before.rows),
                forall|r: int| row < r < ROW_COUNT ==> !row_full(#[trigger] self@.rows[r]),
                self@ == (Session {
                    rows: self@.rows,
                    rows_completed: before.rows_completed + result,
                    rows_completed_level: before.rows_completed_level + result,
                    ..before
                }),
            decreases full_row_count(self@.rows), row + 1,
        {
            let row_index: usize = row as usize;
            if self.row_is_full(row_index) {
                proof {
                    lemma_one_clear(self@.rows, row as int);
                    lemma_kept_len(one_clear(self@.rows, row as int));
                    assert(full_row_count(self@.rows) >= 1);
                }
                result += 1;
                self.rows_completed_level += 1;
                self.rows_completed += 1;
                let ghost mid = self@.rows;
                self.clear_row(row_index);
                assert forall|r: int| row < r < ROW_COUNT implies !row_full(
                    #[trigger] self@.rows[r],
                ) by {
                    assert(self@.rows[r] == mid[r]);
                }
            } else {
                row -= 1;
            }
        }
        proof {
            lemma_nothing_to_clear(self@.rows);
        }
        result
    }

    /// The column at which `shape`, the moving piece after a turn, comes to
    /// stand, if there is one. For each point of the piece in turn, the piece
    /// is pushed towards the middle of the board until that point is between
    /// the walls; the first place so found at which the piece fits is taken.
    fn wall_kick(&self, shape: [Point; 4]) -> (kicked: Option<i32>)
        requires
            self@.frame_ok(),
            shape_ok(shape@),
        ensures
            match kicked {
                Some(col) => kicked_column(self@.rows, shape@, self@.col, self@.row) == Some(
                    col as int,
                ),
                None => kicked_column(self@.rows, shape@, self@.col, self@.row).is_none(),
            },
    {
        let mut result: Option<i32> = None;
        // On the left half of the board kick to the right, else to the left.
        let increment = if self.col < COL_COUNT as i32 / 2 {
            1
        } else {
            -1
        };
        let mut i: usize = 0;
        while i < 4
            invariant_except_break
                result.is_none(),
            invariant
                i <= 4,
                self@.frame_ok(),
                shape_ok(shape@),
                increment == if self.col < COL_COUNT / 2 {
                    1i32
                } else {
                    -1i32
                },
                forall|k: int|
                    0 <= k < i ==> !valid_location(
                        self@.rows,
                        shape@,
                        kick_column(self@.col, (#[trigger] shape@[k]).x as int),
                        self@.row,
                        true,
                    ),
            ensures
                match result {
                    Some(col) => kicked_column(self@.rows, shape@, self@.col, self@.row) == Some(
                        col as int,
                    ),
                    None => kicked_column(self@.rows, shape@, self@.col, self@.row).is_none(),
                },
            decreases 4 - i,
        {
            let point = shape[i];
            let mut kick_col: i32 = self.col;
            let ghost target = kick_column(self.col as int, point.x as int);
            // Shift `kick_col` until this point is between the walls. The
            // piece need not fit there yet.
            loop
                invariant
                    0 <= self.col < COL_COUNT,
                    -2 <= point.x <= 2,
                    target == kick_column(self.col as int, point.x as int),
                    increment == if self.col < COL_COUNT / 2 {
                        1i32
                    } else {
                        -1i32
                    },
                    increment == 1 ==> self.col <= kick_col <= target,
                    increment == -1 ==> target <= kick_col <= self.col,
                    kick_col != target ==> !(0 <= kick_col + point.x < COL_COUNT),
                ensures
                    kick_col == target,
                decreases
                        if increment == 1 {
                            target - kick_col
                        } else {
                            kick_col - target
                        },
            {
                let grid_x = kick_col + point.x as i32;
                if grid_x < 0 || grid_x >= COL_COUNT as i32 {
                    kick_col += increment;
                } else {
                    break ;
                }
            }
            // The place may still be taken by fixed cells.
            if self.valid_location(shape, kick_col, self.row, true) {
                result = Some(kick_col);
                break ;
            }
            i += 1;
        }
        result
    }

    /// Whether a tick would make the moving piece settle.
    fn lands(&self) -> (lands: bool)
        requires
            self@.wf(),
        ensures
            lands == self@.lands(),
    {
        !self.game_over && !(self.row + 1 < ROW_COUNT as i32 && self.valid_location(
            self.shape,
            self.col,
            self.row + 1,
            true,
        ))
    }
}

} // verus!
