//! Cells, and the grids and points that the contracts of this library speak of.

use vstd::prelude::*;

verus! {

/// One square of a grid: free, or filled by a wall, the floor or part of a piece.
#[derive(Clone, Copy, Debug, PartialEq, Eq, Structural)]
pub enum Cell {
    Empty,
    Block,
}

/// The mathematical model of a board or of a piece's shape: rows of cells, top row first.
pub type Grid = Seq<Seq<Cell>>;

/// A place in a grid, or an offset between two places. Rows grow downwards, columns to the
/// right.
pub struct Point {
    pub row: int,
    pub col: int,
}

impl Point {
    /// This point moved by `rows` down and `cols` to the right.
    pub open spec fn shifted(self, rows: int, cols: int) -> Point {
        Point { row: self.row + rows, col: self.col + cols }
    }
}

/// `g` has `height` rows of `width` cells each.
pub open spec fn has_size(g: Grid, height: int, width: int) -> bool {
    &&& g.len() == height
    &&& forall|row: int| 0 <= row < height ==> (#[trigger] g[row]).len() == width
}

/// Every point of `points` moved by `rows` down and `cols` to the right.
pub open spec fn translated(points: Seq<Point>, rows: int, cols: int) -> Seq<Point> {
    Seq::new(points.len(), |i: int| points[i].shifted(rows, cols))
}

} // verus!
