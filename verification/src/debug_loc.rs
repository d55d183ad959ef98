//! Positions in the compiled document.

use vstd::prelude::*;

verus! {

/// A physical position in a document.
///
/// The coordinates are lengths in points. They are single-precision numbers,
/// and are carried here as their bit patterns: the library hands positions on
/// and never computes with them.
#[derive(Debug, Clone, Copy, PartialEq, Eq, Structural)]
pub struct DocumentPosition {
    /// The page, starting at 1.
    pub page_no: usize,
    /// Bits of the x-coordinate on the page (from the left).
    pub x: u32,
    /// Bits of the y-coordinate on the page (from the top).
    pub y: u32,
}

impl DocumentPosition {
    /// The position on page `page_no` with the coordinates whose bits are `x`
    /// and `y`.
    pub fn new(page_no: usize, x: u32, y: u32) -> (res: Self)
        ensures
            res == (DocumentPosition { page_no, x, y }),
    {
        DocumentPosition { page_no, x, y }
    }
}

} // verus!
