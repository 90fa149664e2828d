//! Grid coordinates and selection ranges.
use vstd::prelude::*;

verus! {

/// A cell position: column and row.
#[derive(Debug, Clone, Copy, PartialEq, Eq, Structural)]
pub struct GridPoint {
    pub column: u16,
    pub row: u16,
}

/// An inclusive range of cells.
#[derive(Debug, Clone, Copy, PartialEq, Eq, Structural)]
pub struct SelectionRange {
    pub start: GridPoint,
    pub end: GridPoint,
}

} // verus!
