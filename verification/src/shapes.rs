//! Tetromino geometry: board dimensions, the seven pieces as offsets from an
//! anchor, and quarter turns of a piece about its anchor.
use vstd::prelude::*;

verus! {

/// The width of the game board.
pub const COL_COUNT: u8 = 10;

/// The height of the game board.
pub const ROW_COUNT: u8 = 22;

/// The number of tetrominoes.
pub const SHAPE_COUNT: u8 = 7;

/// The number of points in each tetromino.
pub const POINT_COUNT: u8 = 4;

/// The number of rows the player must complete before going to a new level.
pub const ROWS_PER_LEVEL: u8 = 10;

/// The square is symmetrical, so turning it is never needed.
pub const SQUARE_SHAPE_INDEX: i32 = 1;

/// The column in which a new piece enters the board, in the top row.
pub const SPAWN_COL: i32 = 5;

/// A `Point` is one block of a tetromino: an x/y offset from the anchor of
/// the piece. Every piece has four of them.
#[derive(Copy, Clone, Debug, PartialEq, Eq, Structural)]
pub struct Point {
    /// Columns to the right of the anchor.
    pub x: i16,
    /// Rows below the anchor.
    pub y: i16,
}

/// The point at offset (`x`, `y`) from the anchor.
pub open spec fn at(x: int, y: int) -> Point {
    Point { x: x as i16, y: y as i16 }
}

/// The four points of the piece with the given index, as the piece enters
/// the board. Below, `@` is the anchor and rows grow downwards.
///
/// ```text
///    0       1       2       3       4       5       6
///    .#.     ##      ##.     .##     ..#     #..
///    #@#     #@      .@#     #@.     #@#     #@#     ##@#
/// ```
pub open spec fn catalog(index: int) -> Seq<Point> {
    if index == 0 {
        seq![at(0, 0), at(-1, 0), at(0, -1), at(1, 0)]
    } else if index == 1 {
        seq![at(0, 0), at(-1, 0), at(-1, -1), at(0, -1)]
    } else if index == 2 {
        seq![at(0, 0), at(0, -1), at(-1, -1), at(1, 0)]
    } else if index == 3 {
        seq![at(0, 0), at(0, -1), at(1, -1), at(-1, 0)]
    } else if index == 4 {
        seq![at(0, 0), at(1, 0), at(1, -1), at(-1, 0)]
    } else if index == 5 {
        seq![at(0, 0), at(-1, 0), at(-1, -1), at(1, 0)]
    } else {
        seq![at(0, 0), at(-1, 0), at(-2, 0), at(1, 0)]
    }
}

/// Whether `index` names one of the seven pieces.
pub open spec fn is_shape_index(index: int) -> bool {
    0 <= index < SHAPE_COUNT
}

/// What every piece on the board looks like, however it has been turned: four
/// different points, the first of them the anchor itself, none further than
/// two cells from it.
pub open spec fn shape_ok(shape: Seq<Point>) -> bool {
    &&& shape.len() == POINT_COUNT
    &&& shape[0] == at(0, 0)
    &&& forall|i: int|
        0 <= i < POINT_COUNT ==> -2 <= (#[trigger] shape[i]).x <= 2 && -2 <= shape[i].y <= 2
    &&& forall|i: int, j: int| 0 <= i < j < POINT_COUNT ==> shape[i] != shape[j]
}

/// A point after a quarter turn about the anchor. Rows grow downwards, so
/// clockwise takes (x, y) to (-y, x) and counter-clockwise takes it to (y, -x).
pub open spec fn quarter_turn(p: Point, clockwise: bool) -> Point {
    if clockwise {
        Point { x: (-p.y) as i16, y: p.x }
    } else {
        Point { x: p.y, y: (-p.x) as i16 }
    }
}

/// A piece after a quarter turn of each of its points.
pub open spec fn turned(shape: Seq<Point>, clockwise: bool) -> Seq<Point> {
    Seq::new(shape.len(), |i: int| quarter_turn(shape[i], clockwise))
}

/// The piece with the given index after so many clockwise quarter turns.
pub open spec fn oriented(index: int, turns: nat) -> Seq<Point>
    decreases turns,
{
    if turns == 0 {
        catalog(index)
    } else {
        turned(oriented(index, (turns - 1) as nat), true)
    }
}

/// Whether `shape` is the piece with the given index, turned one way or
/// another. Four quarter turns bring a piece back to where it started, so
/// there are four ways.
pub open spec fn is_orientation(shape: Seq<Point>, index: int) -> bool {
    exists|turns: nat| turns < 4 && shape == #[trigger] oriented(index, turns)
}

/// Every piece of the catalog is well formed.
pub proof fn lemma_catalog_ok(index: int)
    requires
        is_shape_index(index),
    ensures
        shape_ok(catalog(index)),
{
}

/// A quarter turn keeps a piece well formed.
pub proof fn lemma_turned_ok(shape: Seq<Point>, clockwise: bool)
    requires
        shape_ok(shape),
    ensures
        shape_ok(turned(shape, clockwise)),
{
    let t = turned(shape, clockwise);
    assert forall|i: int, j: int| 0 <= i < j < POINT_COUNT implies t[i] != t[j] by {
        assert(shape[i] != shape[j]);
    }
}

/// A quarter turn one way undoes a quarter turn the other way, and four
/// quarter turns the same way undo each other.
pub proof fn lemma_turns_undo(shape: Seq<Point>, clockwise: bool)
    requires
        shape_ok(shape),
    ensures
        turned(turned(shape, clockwise), !clockwise) == shape,
        turned(turned(turned(turned(shape, clockwise), clockwise), clockwise), clockwise) == shape,
{
    assert(turned(turned(shape, clockwise), !clockwise) =~= shape);
    assert(turned(turned(turned(turned(shape, clockwise), clockwise), clockwise), clockwise)
        =~= shape);
}

/// However a piece of the catalog is turned, it is well formed.
pub proof fn lemma_oriented_ok(index: int, turns: nat)
    requires
        is_shape_index(index),
    ensures
        shape_ok(oriented(index, turns)),
    decreases turns,
{
    if turns == 0 {
        lemma_catalog_ok(index);
    } else {
        lemma_oriented_ok(index, (turns - 1) as nat);
        lemma_turned_ok(oriented(index, (turns - 1) as nat), true);
    }
}

/// A quarter turn of a piece, either way, gives the same piece turned
/// another way.
pub proof fn lemma_turned_orientation(shape: Seq<Point>, index: int, clockwise: bool)
    requires
        is_shape_index(index),
        is_orientation(shape, index),
    ensures
        is_orientation(turned(shape, clockwise), index),
{
    let turns = choose|turns: nat| turns < 4 && shape == #[trigger] oriented(index, turns);
    reveal_with_fuel(oriented, 5);
    lemma_catalog_ok(index);
    lemma_oriented_ok(index, 1);
    lemma_oriented_ok(index, 2);
    lemma_oriented_ok(index, 3);
    lemma_turns_undo(catalog(index), true);
    if clockwise {
        if turns < 3 {
            assert(turned(shape, true) == oriented(index, turns + 1));
        } else {
            assert(turned(shape, true) == oriented(index, 0));
        }
    } else {
        if turns > 0 {
            lemma_turns_undo(oriented(index, (turns - 1) as nat), true);
            assert(turned(shape, false) == oriented(index, (turns - 1) as nat));
        } else {
            lemma_turns_undo(oriented(index, 3), true);
            assert(turned(shape, false) == oriented(index, 3));
        }
    }
}

/// The points of the piece with the given index.
pub fn shape_points(index: i32) -> (shape: [Point; 4])
    requires
        is_shape_index(index as int),
    ensures
        shape@ == catalog(index as int),
{
    let shape = if index == 0 {
        [Point { x: 0, y: 0 }, Point { x: -1, y: 0 }, Point { x: 0, y: -1 }, Point { x: 1, y: 0 }]
    } else if index == 1 {
        [Point { x: 0, y: 0 }, Point { x: -1, y: 0 }, Point { x: -1, y: -1 }, Point { x: 0, y: -1 }]
    } else if index == 2 {
        [Point { x: 0, y: 0 }, Point { x: 0, y: -1 }, Point { x: -1, y: -1 }, Point { x: 1, y: 0 }]
    } else if index == 3 {
        [Point { x: 0, y: 0 }, Point { x: 0, y: -1 }, Point { x: 1, y: -1 }, Point { x: -1, y: 0 }]
    } else if index == 4 {
        [Point { x: 0, y: 0 }, Point { x: 1, y: 0 }, Point { x: 1, y: -1 }, Point { x: -1, y: 0 }]
    } else if index == 5 {
        [Point { x: 0, y: 0 }, Point { x: -1, y: 0 }, Point { x: -1, y: -1 }, Point { x: 1, y: 0 }]
    } else {
        [Point { x: 0, y: 0 }, Point { x: -1, y: 0 }, Point { x: -2, y: 0 }, Point { x: 1, y: 0 }]
    };
    assert(shape@ =~= catalog(index as int));
    shape
}

/// Turns each point of `shape` by a quarter about the anchor.
pub fn rotate_shape(clockwise: bool, shape: &mut [Point; 4])
    requires
        forall|i: int|
            0 <= i < 4 ==> (#[trigger] old(shape)[i]).x > i16::MIN && old(shape)[i].y > i16::MIN,
    ensures
        final(shape)@ == turned(old(shape)@, clockwise),
{
    let ghost before = shape@;
    let mut i: usize = 0;
    while i < 4
        invariant
            i <= 4,
            before == old(shape)@,
            forall|k: int|
                0 <= k < 4 ==> (#[trigger] before[k]).x > i16::MIN && before[k].y > i16::MIN,
            forall|k: int| 0 <= k < i ==> shape@[k] == quarter_turn(before[k], clockwise),
            forall|k: int| i <= k < 4 ==> shape@[k] == before[k],
        decreases 4 - i,
    {
        let p = shape[i];
        assert(p == before[i as int]);
        if clockwise {
            shape[i] = Point { x: -p.y, y: p.x };
        } else {
            shape[i] = Point { x: p.y, y: -p.x };
        }
        i += 1;
    }
    assert(shape@ =~= turned(before, clockwise));
}

} // verus!
