//! The cells of the playfield and what a piece can do to a cell it covers.
use vstd::prelude::*;

verus! {

/// The game board is a grid of `GridCell`s; each one has a `GridCellType`.
#[derive(Copy, Clone, Debug, PartialEq, Eq, Structural)]
pub enum GridCellType {
    /// The cell is empty.
    Void,
    /// A point of a piece that has been dropped into place.
    Fixed,
    /// A point of the piece that is moving, not yet dropped.
    Shape,
    /// A point of the preview that shows where the moving piece would land.
    Shadow,
}

/// One cell of the game board.
#[derive(Copy, Clone, Debug, PartialEq, Eq, Structural)]
pub struct GridCell {
    /// The kind of cell, see `GridCellType`.
    pub cell_type: GridCellType,
    /// For a `Fixed` or `Shape` cell, the index of the piece it is part of.
    pub shape_index: i32,
}

/// The empty cell: `Void`, with -1 where a piece's index would stand.
pub open spec fn void_cell() -> GridCell {
    GridCell { cell_type: GridCellType::Void, shape_index: -1i32 }
}

impl Default for GridCell {
    fn default() -> (cell: GridCell)
        ensures
            cell == void_cell(),
    {
        GridCell { cell_type: GridCellType::Void, shape_index: -1 }
    }
}

/// What a piece does to each cell under one of its points.
#[derive(Copy, Clone, Debug, PartialEq, Eq, Structural)]
pub enum Stamp {
    /// The moving piece with the given index enters the cell.
    Place(i32),
    /// The landing preview marks the cell, if it is empty.
    Shade,
    /// The moving piece leaves the cell.
    Lift,
    /// The landing preview leaves the cell, if it marked it.
    Unshade,
    /// The moving piece settles in the cell for good.
    Fix,
}

/// The cell that `stamp` makes of `cell`.
pub open spec fn stamped(cell: GridCell, stamp: Stamp) -> GridCell {
    match stamp {
        Stamp::Place(index) => GridCell { cell_type: GridCellType::Shape, shape_index: index },
        Stamp::Shade => if cell.cell_type == GridCellType::Void {
            GridCell { cell_type: GridCellType::Shadow, shape_index: cell.shape_index }
        } else {
            cell
        },
        Stamp::Lift => void_cell(),
        Stamp::Unshade => if cell.cell_type == GridCellType::Shadow {
            GridCell { cell_type: GridCellType::Void, shape_index: cell.shape_index }
        } else {
            cell
        },
        Stamp::Fix => GridCell { cell_type: GridCellType::Fixed, shape_index: cell.shape_index },
    }
}

/// The state a cell has to be in for `stamp` to make sense: a piece enters
/// only cells that are free, and leaves or settles in only cells it occupies.
pub open spec fn stamp_allowed(cell: GridCell, stamp: Stamp) -> bool {
    match stamp {
        Stamp::Place(_) => cell.cell_type == GridCellType::Void || cell.cell_type
            == GridCellType::Shadow,
        Stamp::Lift | Stamp::Fix => cell.cell_type == GridCellType::Shape,
        Stamp::Shade | Stamp::Unshade => true,
    }
}

impl GridCell {
    /// Applies `stamp` to this cell.
    pub fn stamp(self, stamp: Stamp) -> (cell: GridCell)
        ensures
            cell == stamped(self, stamp),
    {
        match stamp {
            Stamp::Place(index) => GridCell { cell_type: GridCellType::Shape, shape_index: index },
            Stamp::Shade => if self.cell_type == GridCellType::Void {
                GridCell { cell_type: GridCellType::Shadow, shape_index: self.shape_index }
            } else {
                self
            },
            Stamp::Lift => GridCell::default(),
            Stamp::Unshade => if self.cell_type == GridCellType::Shadow {
                GridCell { cell_type: GridCellType::Void, shape_index: self.shape_index }
            } else {
                self
            },
            Stamp::Fix => GridCell {
                cell_type: GridCellType::Fixed,
                shape_index: self.shape_index,
            },
        }
    }
}

} // verus!
