//! Horizontal bands of strings.
use vstd::prelude::*;

verus! {

/// Index of a row of strings, counted from the top.
pub type RowIndex = usize;

#[derive(Clone, Copy, Debug, Eq, PartialEq, Structural, Hash)]
pub enum RowId {
    Top,
    Middle,
    Bottom,
}

impl RowId {
    pub fn index(self) -> (r: usize)
        ensures
            r == match self {
                RowId::Top => 0usize,
                RowId::Middle => 1usize,
                RowId::Bottom => 2usize,
            },
    {
        match self {
            RowId::Top => 0,
            RowId::Middle => 1,
            RowId::Bottom => 2,
        }
    }

    /// The row at a height given in thousandths of the screen, from the top:
    /// the top 40% is the top row, the next 40% the middle row, the rest the bottom row.
    pub fn from_y_permille(y: u32) -> (r: Self)
        ensures
            r == (if y < 400 {
                RowId::Top
            } else if y < 800 {
                RowId::Middle
            } else {
                RowId::Bottom
            }),
    {
        if y < 400 {
            RowId::Top
        } else if y < 800 {
            RowId::Middle
        } else {
            RowId::Bottom
        }
    }
}

} // verus!
