pub mod bitgrid;
pub mod laws;
pub mod life;
pub mod universe;

use vstd::prelude::*;

verus! {

/// The two states a grid cell can be in.
#[derive(Clone, Copy, Debug, PartialEq, Eq, Structural)]
pub enum Cell {
    Dead,
    Alive,
}

impl Cell {
    /// The bit stored in the grid for this cell state.
    pub fn as_bit(self) -> (b: bool)
        ensures
            b == (self == Cell::Alive),
    {
        match self {
            Cell::Alive => true,
            Cell::Dead => false,
        }
    }
}

} // verus!
