//! The interface of a device that shows a grid of cells.
use vstd::prelude::*;

use crate::cell::Cell;

verus! {

/// A 2D array of `Cell` to render on screen.
pub trait TextBuffer {
    /// Columns.
    fn width(&self) -> usize;

    /// Rows.
    fn height(&self) -> usize;

    /// Reads the cell at `(row, col)`.
    ///
    /// This is usually slow on real hardware, and a device may not support it.
    fn read(&self, row: usize, col: usize) -> Cell;

    /// Writes `cell` at `(row, col)`.
    fn write(&mut self, row: usize, col: usize, cell: Cell);

    /// Writes the default cell at `(row, col)`.
    fn delete(&mut self, row: usize, col: usize) {
        self.write(row, col, Cell::default());
    }

    /// Moves every row up by one and fills the bottom row with `cell`.
    ///
    /// This default reads and writes each cell once; a device with a faster
    /// way to scroll should provide its own.
    fn new_line(&mut self, cell: Cell) {
        let height = self.height();
        let width = self.width();
        let mut i: usize = 1;
        while i < height
            invariant
                1 <= i,
            decreases height - i,
        {
            let mut j: usize = 0;
            while j < width
                invariant
                    1 <= i < height,
                decreases width - j,
            {
                let c = self.read(i, j);
                self.write(i - 1, j, c);
                j = j + 1;
            }
            i = i + 1;
        }
        if height > 0 {
            let mut j: usize = 0;
            while j < width
                invariant
                    height > 0,
                decreases width - j,
            {
                self.write(height - 1, j, cell);
                j = j + 1;
            }
        }
    }

    /// Writes `cell` at every position.
    fn clear(&mut self, cell: Cell) {
        let height = self.height();
        let width = self.width();
        let mut i: usize = 0;
        while i < height
            decreases height - i,
        {
            let mut j: usize = 0;
            while j < width
                decreases width - j,
            {
                self.write(i, j, cell);
                j = j + 1;
            }
            i = i + 1;
        }
    }
}

} // verus!
