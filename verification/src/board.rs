//! The playfield as a mathematical object: rows of cells, the cells a piece
//! covers, where a piece fits, and where it would land.
use vstd::prelude::*;
use crate::cells::{GridCell, GridCellType, Stamp, stamped};
use crate::shapes::{COL_COUNT, Point, POINT_COUNT, ROW_COUNT};

verus! {

/// The playfield: `rows[r][c]` is the cell in row `r`, counted from the top,
/// and column `c`, counted from the left.
pub type Rows = Seq<Seq<GridCell>>;

/// Whether column `c`, row `r` is a cell of the board.
pub open spec fn in_bounds(c: int, r: int) -> bool {
    0 <= c < COL_COUNT && 0 <= r < ROW_COUNT
}

/// Whether `rows` has the dimensions of the board.
pub open spec fn rows_ok(rows: Rows) -> bool {
    &&& rows.len() == ROW_COUNT
    &&& forall|r: int| 0 <= r < ROW_COUNT ==> (#[trigger] rows[r]).len() == COL_COUNT
}

/// Whether point `p` of a piece anchored at (`col`, `row`) lies on (`c`, `r`).
pub open spec fn hits(p: Point, col: int, row: int, c: int, r: int) -> bool {
    col + p.x == c && row + p.y == r
}

/// Whether one of the first `n` points of the piece lies on (`c`, `r`).
pub open spec fn covers_first(
    shape: Seq<Point>,
    n: int,
    col: int,
    row: int,
    c: int,
    r: int,
) -> bool {
    ||| (n >= 1 && hits(shape[0], col, row, c, r))
    ||| (n >= 2 && hits(shape[1], col, row, c, r))
    ||| (n >= 3 && hits(shape[2], col, row, c, r))
    ||| (n >= 4 && hits(shape[3], col, row, c, r))
}

/// Whether the piece anchored at (`col`, `row`) covers (`c`, `r`).
pub open spec fn covers(shape: Seq<Point>, col: int, row: int, c: int, r: int) -> bool {
    covers_first(shape, POINT_COUNT as int, col, row, c, r)
}

/// The board after `stamp` has been applied under the first `n` points of the
/// piece anchored at (`col`, `row`). Points off the board leave no mark.
pub open spec fn stamp_first(
    rows: Rows,
    shape: Seq<Point>,
    n: int,
    col: int,
    row: int,
    stamp: Stamp,
) -> Rows {
    Seq::new(
        rows.len(),
        |r: int|
            Seq::new(
                rows[r].len(),
                |c: int|
                    if covers_first(shape, n, col, row, c, r) {
                        stamped(rows[r][c], stamp)
                    } else {
                        rows[r][c]
                    },
            ),
    )
}

/// The board after `stamp` has been applied under every point of the piece.
pub open spec fn stamp_shape(
    rows: Rows,
    shape: Seq<Point>,
    col: int,
    row: int,
    stamp: Stamp,
) -> Rows {
    stamp_first(rows, shape, POINT_COUNT as int, col, row, stamp)
}

/// Whether the cell at (`c`, `r`) is a fixed cell.
pub open spec fn fixed_at(rows: Rows, c: int, r: int) -> bool {
    rows[r][c].cell_type == GridCellType::Fixed
}

/// Whether one point of a piece anchored at (`col`, `row`) is acceptable: it
/// is not below the floor, it is between the side walls where `check_sides`
/// asks for that, and it is not on a fixed cell. A point above the board
/// cannot collide with anything.
pub open spec fn point_fits(rows: Rows, p: Point, col: int, row: int, check_sides: bool) -> bool {
    let x = col + p.x;
    let y = row + p.y;
    &&& check_sides ==> 0 <= x < COL_COUNT
    &&& y < ROW_COUNT
    &&& in_bounds(x, y) ==> !fixed_at(rows, x, y)
}

/// Whether the piece can stand with its anchor at (`col`, `row`).
pub open spec fn valid_location(
    rows: Rows,
    shape: Seq<Point>,
    col: int,
    row: int,
    check_sides: bool,
) -> bool {
    &&& point_fits(rows, shape[0], col, row, check_sides)
    &&& point_fits(rows, shape[1], col, row, check_sides)
    &&& point_fits(rows, shape[2], col, row, check_sides)
    &&& point_fits(rows, shape[3], col, row, check_sides)
}

/// The row at which the piece comes to rest when it falls straight down from
/// (`col`, `row`): the first row from which it cannot go one further.
pub open spec fn landing_row(rows: Rows, shape: Seq<Point>, col: int, row: int) -> int
    decreases ROW_COUNT - shape[0].y - row,
{
    if valid_location(rows, shape, col, row + 1, true) {
        landing_row(rows, shape, col, row + 1)
    } else {
        row
    }
}

/// Whether two boards have their fixed cells in the same places.
pub open spec fn same_fixed(a: Rows, b: Rows) -> bool {
    forall|c: int, r: int| in_bounds(c, r) ==> #[trigger] fixed_at(a, c, r) == fixed_at(b, c, r)
}

/// Where a piece fits depends on the fixed cells alone.
pub proof fn lemma_same_fixed_valid(
    a: Rows,
    b: Rows,
    shape: Seq<Point>,
    col: int,
    row: int,
    check_sides: bool,
)
    requires
        same_fixed(a, b),
    ensures
        valid_location(a, shape, col, row, check_sides) == valid_location(
            b,
            shape,
            col,
            row,
            check_sides,
        ),
{
    assert forall|p: Point|
        point_fits(a, p, col, row, check_sides) == point_fits(b, p, col, row, check_sides) by {
        let x = col + p.x;
        let y = row + p.y;
        if in_bounds(x, y) {
            assert(fixed_at(a, x, y) == fixed_at(b, x, y));
        }
    }
}

/// Where a piece lands depends on the fixed cells alone.
pub proof fn lemma_same_fixed_landing(a: Rows, b: Rows, shape: Seq<Point>, col: int, row: int)
    requires
        same_fixed(a, b),
    ensures
        landing_row(a, shape, col, row) == landing_row(b, shape, col, row),
    decreases ROW_COUNT - shape[0].y - row,
{
    lemma_same_fixed_valid(a, b, shape, col, row + 1, true);
    if valid_location(a, shape, col, row + 1, true) {
        lemma_same_fixed_landing(a, b, shape, col, row + 1);
    }
}

/// A piece that fits where it is also fits where it lands, not above where it
/// started, and cannot go one row further from there.
pub proof fn lemma_landing_row(rows: Rows, shape: Seq<Point>, col: int, row: int)
    requires
        valid_location(rows, shape, col, row, true),
    ensures
        row <= landing_row(rows, shape, col, row),
        landing_row(rows, shape, col, row) + shape[0].y < ROW_COUNT,
        valid_location(rows, shape, col, landing_row(rows, shape, col, row), true),
        !valid_location(rows, shape, col, landing_row(rows, shape, col, row) + 1, true),
    decreases ROW_COUNT - shape[0].y - row,
{
    if valid_location(rows, shape, col, row + 1, true) {
        lemma_landing_row(rows, shape, col, row + 1);
    }
}

/// On its way down to where it lands a piece fits in every row, and from
/// every row it lands in the same place.
pub proof fn lemma_falls_freely(rows: Rows, shape: Seq<Point>, col: int, row: int, between: int)
    requires
        valid_location(rows, shape, col, row, true),
        row <= between <= landing_row(rows, shape, col, row),
    ensures
        valid_location(rows, shape, col, between, true),
        landing_row(rows, shape, col, between) == landing_row(rows, shape, col, row),
    decreases between - row,
{
    if row < between {
        lemma_falls_freely(rows, shape, col, row + 1, between);
    }
}

} // verus!
