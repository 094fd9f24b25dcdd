//! The per-cell rendering decision: which shape stands for a cell state.

use vstd::prelude::*;

verus! {

/// How one cell is to be rendered.
#[derive(Clone, Copy, Debug, PartialEq, Eq, Structural)]
pub enum CellShape {
    /// A filled rectangle: the cell is alive.
    Filled,
    /// An outlined rectangle: the cell is dead and borders are drawn.
    Outlined,
    /// Nothing: the cell is dead and borders are off.
    Hidden,
}

/// Maps a cell state and the border flag to the shape the renderer draws:
/// alive cells are filled, dead cells are outlined when borders are on and
/// hidden otherwise.
pub fn cell_shape(state: i8, draw_borders: bool) -> (shape: CellShape)
    ensures
        shape == (if state != 0 {
            CellShape::Filled
        } else if draw_borders {
            CellShape::Outlined
        } else {
            CellShape::Hidden
        }),
{
    if draw_borders {
        if state == 0 {
            CellShape::Outlined
        } else {
            CellShape::Filled
        }
    } else if state == 0 {
        CellShape::Hidden
    } else {
        CellShape::Filled
    }
}

} // verus!
