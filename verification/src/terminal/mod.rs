//! The local terminal: the size its pseudo-terminal is given.

use vstd::prelude::*;

verus! {

/// The size of a terminal window, in cells and in pixels per cell.
#[derive(Debug, PartialEq, Eq, Structural, Clone, Copy)]
pub struct WindowSize {
    pub num_cols: u16,
    pub num_lines: u16,
    pub cell_width: u16,
    pub cell_height: u16,
}

impl WindowSize {
    /// The size a local terminal starts with: 80 columns, 20 lines, one
    /// pixel per cell.
    pub fn initial() -> (r: WindowSize)
        ensures
            r.num_cols == 80,
            r.num_lines == 20,
            r.cell_width == 1,
            r.cell_height == 1,
    {
        WindowSize { num_cols: 80, num_lines: 20, cell_width: 1, cell_height: 1 }
    }

    /// The size of a terminal resized to `width` columns and `height` lines.
    pub fn resized(width: u16, height: u16) -> (r: WindowSize)
        ensures
            r.num_cols == width,
            r.num_lines == height,
            r.cell_width == 1,
            r.cell_height == 1,
    {
        WindowSize { num_cols: width, num_lines: height, cell_width: 1, cell_height: 1 }
    }
}

} // verus!
