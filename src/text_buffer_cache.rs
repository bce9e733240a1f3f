//! An in-memory copy of the grid over a text buffer, with scrolling by row rotation.
use vstd::prelude::*;

use crate::cell::{default_cell, Cell};
use crate::text_buffer::TextBuffer;

verus! {

/// A row of `width` copies of `cell`.
pub open spec fn blank_row(width: nat, cell: Cell) -> Seq<Cell> {
    Seq::new(width, |_j: int| cell)
}

/// `grid` with `cell` at `(row, col)`.
pub open spec fn put_cell(grid: Seq<Seq<Cell>>, row: int, col: int, cell: Cell) -> Seq<Seq<Cell>> {
    grid.update(row, grid[row].update(col, cell))
}

/// `grid` with its top row dropped and a row of `cell` added at the bottom.
pub open spec fn scrolled(grid: Seq<Seq<Cell>>, width: nat, cell: Cell) -> Seq<Seq<Cell>> {
    grid.subrange(1, grid.len() as int).push(blank_row(width, cell))
}

/// A `height` by `width` grid of `cell`.
pub open spec fn filled(height: nat, width: nat, cell: Cell) -> Seq<Seq<Cell>> {
    Seq::new(height, |_i: int| blank_row(width, cell))
}

/// The stored row that holds logical row `row` when the rotation is `offset`.
pub open spec fn stored_row(offset: int, height: int, row: int) -> int {
    if row < height - offset {
        offset + row
    } else {
        row - (height - offset)
    }
}

/// A call that the cache made on its inner buffer.
pub enum Forwarded {
    /// `write(row, col, cell)`, in logical coordinates.
    Write(usize, usize, Cell),
    /// `clear(cell)`.
    Clear(Cell),
}

/// The writes that put `cell` across row `row`, column by column.
pub open spec fn row_writes(row: usize, width: nat, cell: Cell) -> Seq<Forwarded> {
    Seq::new(width, |j: int| Forwarded::Write(row, j as usize, cell))
}

/// Cache layer for a [`TextBuffer`].
///
/// Logical row `r` is kept in stored row `(row_offset + r) mod height`, so that
/// scrolling by one line rewrites a single row.
pub struct TextBufferCache<T: TextBuffer> {
    buf: Vec<Vec<Cell>>,
    row_offset: usize,
    width: usize,
    height: usize,
    inner: T,
    sent: Ghost<Seq<Forwarded>>,
}

impl<T: TextBuffer> View for TextBufferCache<T> {
    type V = Seq<Seq<Cell>>;

    /// The grid in logical order, row by row.
    closed spec fn view(&self) -> Seq<Seq<Cell>> {
        Seq::new(
            self.height as nat,
            |r: int| self.buf@[stored_row(self.row_offset as int, self.height as int, r)]@,
        )
    }
}

impl<T: TextBuffer> TextBufferCache<T> {
    /// The number of columns.
    pub closed spec fn spec_width(&self) -> nat {
        self.width as nat
    }

    /// The number of rows.
    pub closed spec fn spec_height(&self) -> nat {
        self.height as nat
    }

    /// The rotation of the stored rows.
    pub closed spec fn spec_row_offset(&self) -> nat {
        self.row_offset as nat
    }

    /// The calls made on the inner buffer so far, in order.
    pub closed spec fn forwarded(&self) -> Seq<Forwarded> {
        self.sent@
    }

    /// The cache is well formed: it has at least one row and one column, every
    /// stored row has `width` cells, and the rotation is below `height`.
    pub closed spec fn wf(&self) -> bool {
        &&& self.width > 0
        &&& self.height > 0
        &&& self.buf@.len() == self.height
        &&& forall|i: int| 0 <= i < self.height ==> (#[trigger] self.buf@[i])@.len() == self.width
        &&& self.row_offset < self.height
    }

    /// The shape that a well-formed cache shows.
    pub proof fn lemma_shape(&self)
        requires
            self.wf(),
        ensures
            self@.len() == self.spec_height(),
            forall|r: int|
                0 <= r < self.spec_height() ==> (#[trigger] self@[r]).len() == self.spec_width(),
            self.spec_width() > 0,
            self.spec_height() > 0,
            self.spec_row_offset() < self.spec_height(),
    {
        assert forall|r: int| 0 <= r < self.spec_height() implies (#[trigger] self@[r]).len()
            == self.spec_width() by {
            let p = stored_row(self.row_offset as int, self.height as int, r);
            assert(0 <= p < self.height);
            assert(self.buf@[p]@.len() == self.width);
        }
    }

    /// Creates a cache layer for `inner`, with the size that `inner` reports.
    ///
    /// Returns `None` when `inner` reports no rows or no columns.
    pub fn new(inner: T) -> (r: Option<Self>)
        ensures
            r matches Some(c) ==> {
                &&& c.wf()
                &&& c.spec_row_offset() == 0
                &&& c.forwarded().len() == 0
                &&& c@ == filled(c.spec_height(), c.spec_width(), default_cell())
            },
    {
        let width = inner.width();
        let height = inner.height();
        Self::with_size(inner, width, height)
    }

    /// Creates a cache layer of `height` rows and `width` columns over `inner`,
    /// every cell being the default cell.
    ///
    /// Returns `None` exactly when `width` or `height` is zero.
    pub fn with_size(inner: T, width: usize, height: usize) -> (r: Option<Self>)
        ensures
            r is None <==> (width == 0 || height == 0),
            r matches Some(c) ==> {
                &&& c.wf()
                &&& c.spec_width() == width
                &&& c.spec_height() == height
                &&& c.spec_row_offset() == 0
                &&& c.forwarded().len() == 0
                &&& c@ == filled(height as nat, width as nat, default_cell())
            },
    {
        if width == 0 || height == 0 {
            return None;
        }
        let cell = Cell::default();
        let mut buf: Vec<Vec<Cell>> = Vec::new();
        let mut i: usize = 0;
        while i < height
            invariant
                i <= height,
                buf@.len() == i,
                forall|k: int|
                    0 <= k < i ==> (#[trigger] buf@[k])@ == blank_row(width as nat, cell),
            decreases height - i,
        {
            let row = Self::row_of(width, cell);
            buf.push(row);
            i = i + 1;
        }
        let c = TextBufferCache { buf, row_offset: 0, width, height, inner, sent: Ghost(Seq::empty()) };
        assert(c@ =~= filled(height as nat, width as nat, cell)) by {
            assert forall|r: int| 0 <= r < height implies #[trigger] c@[r] =~= blank_row(
                width as nat,
                cell,
            ) by {
                assert(stored_row(0, height as int, r) == r);
            }
        }
        Some(c)
    }

    fn row_of(width: usize, cell: Cell) -> (row: Vec<Cell>)
        ensures
            row@ == blank_row(width as nat, cell),
    {
        let mut row: Vec<Cell> = Vec::new();
        let mut j: usize = 0;
        while j < width
            invariant
                j <= width,
                row@ =~= blank_row(j as nat, cell),
            decreases width - j,
        {
            row.push(cell);
            j = j + 1;
        }
        row
    }

    /// Gets the stored row of logical row `row`.
    fn real_row(&self, row: usize) -> (p: usize)
        requires
            self.wf(),
            row < self.height,
        ensures
            p == stored_row(self.row_offset as int, self.height as int, row as int),
            p < self.height,
    {
        if row < self.height - self.row_offset {
            self.row_offset + row
        } else {
            row - (self.height - self.row_offset)
        }
    }

    /// Columns.
    pub fn width(&self) -> (w: usize)
        ensures
            w == self.spec_width(),
    {
        self.width
    }

    /// Rows.
    pub fn height(&self) -> (h: usize)
        ensures
            h == self.spec_height(),
    {
        self.height
    }

    /// The rotation of the stored rows.
    pub fn row_offset(&self) -> (o: usize)
        ensures
            o == self.spec_row_offset(),
    {
        self.row_offset
    }

    /// Reads the cell at logical position `(row, col)`.
    pub fn read(&self, row: usize, col: usize) -> (c: Cell)
        requires
            self.wf(),
            row < self.spec_height(),
            col < self.spec_width(),
        ensures
            c == self@[row as int][col as int],
    {
        let p = self.real_row(row);
        self.buf[p][col]
    }

    /// Writes `cell` at logical position `(row, col)`, in the cache and in the
    /// inner buffer.
    pub fn write(&mut self, row: usize, col: usize, cell: Cell)
        requires
            old(self).wf(),
            row < old(self).spec_height(),
            col < old(self).spec_width(),
        ensures
            final(self).wf(),
            final(self).spec_width() == old(self).spec_width(),
            final(self).spec_height() == old(self).spec_height(),
            final(self).spec_row_offset() == old(self).spec_row_offset(),
            final(self)@ == put_cell(old(self)@, row as int, col as int, cell),
            final(self).forwarded() == old(self).forwarded().push(Forwarded::Write(row, col, cell)),
    {
        let p = self.real_row(row);
        let ghost before = self@;
        self.buf[p].set(col, cell);
        self.inner.write(row, col, cell);
        self.sent = Ghost(self.sent@.push(Forwarded::Write(row, col, cell)));
        assert(self@ =~= put_cell(before, row as int, col as int, cell)) by {
            assert forall|r: int| 0 <= r < self.height implies #[trigger] self@[r] =~= put_cell(
                before,
                row as int,
                col as int,
                cell,
            )[r] by {
                let q = stored_row(self.row_offset as int, self.height as int, r);
                if r != row {
                    assert(q != p);
                }
            }
        }
    }

    /// Drops the top row and adds a row of `cell` at the bottom, by rewriting
    /// one stored row and advancing the rotation.
    pub fn new_line(&mut self, cell: Cell)
        requires
            old(self).wf(),
        ensures
            final(self).wf(),
            final(self).spec_width() == old(self).spec_width(),
            final(self).spec_height() == old(self).spec_height(),
            final(self).spec_row_offset() as int == (old(self).spec_row_offset() as int + 1) % (old(
                self,
            ).spec_height() as int),
            final(self)@ == scrolled(old(self)@, old(self).spec_width(), cell),
            final(self).forwarded() == old(self).forwarded() + row_writes(
                (old(self).spec_height() - 1) as usize,
                old(self).spec_width(),
                cell,
            ),
    {
        let ghost before = self@;
        let row = Self::row_of(self.width, cell);
        let off = self.row_offset;
        self.buf.set(off, row);
        let ghost stored = self.buf@;
        assert(stored[off as int]@ == blank_row(self.width as nat, cell));
        let mut j: usize = 0;
        while j < self.width
            invariant
                self.wf(),
                self.width == old(self).width,
                self.height == old(self).height,
                self.row_offset == old(self).row_offset,
                j <= self.width,
                self.sent@ == old(self).sent@ + row_writes(
                    (self.height - 1) as usize,
                    j as nat,
                    cell,
                ),
                self.buf@ == stored,
            decreases self.width - j,
        {
            self.inner.write(self.height - 1, j, cell);
            self.sent = Ghost(self.sent@.push(Forwarded::Write((self.height - 1) as usize, j, cell)));
            assert(self.sent@ =~= old(self).sent@ + row_writes(
                (self.height - 1) as usize,
                (j + 1) as nat,
                cell,
            ));
            j = j + 1;
        }
        self.row_offset = if off + 1 == self.height {
            0
        } else {
            off + 1
        };
        proof {
            old(self).lemma_shape();
            if off + 1 == self.height {
                vstd::arithmetic::div_mod::lemma_mod_self_0(self.height as int);
            } else {
                vstd::arithmetic::div_mod::lemma_small_mod((off + 1) as nat, self.height as nat);
            }
        }
        assert(self@ =~= scrolled(before, self.width as nat, cell)) by {
            assert forall|r: int| 0 <= r < self.height implies #[trigger] self@[r] =~= scrolled(
                before,
                self.width as nat,
                cell,
            )[r] by {
                if r < self.height - 1 {
                    assert(stored_row(self.row_offset as int, self.height as int, r) == stored_row(
                        off as int,
                        self.height as int,
                        r + 1,
                    ));
                    assert(stored_row(off as int, self.height as int, r + 1) != off);
                } else {
                    assert(stored_row(self.row_offset as int, self.height as int, r) == off);
                }
            }
        }
    }

    /// Writes `cell` at every position, in the cache and in the inner buffer,
    /// and resets the rotation.
    pub fn clear(&mut self, cell: Cell)
        requires
            old(self).wf(),
        ensures
            final(self).wf(),
            final(self).spec_width() == old(self).spec_width(),
            final(self).spec_height() == old(self).spec_height(),
            final(self).spec_row_offset() == 0,
            final(self)@ == filled(old(self).spec_height(), old(self).spec_width(), cell),
            final(self).forwarded() == old(self).forwarded().push(Forwarded::Clear(cell)),
    {
        self.row_offset = 0;
        self.inner.clear(cell);
        self.sent = Ghost(self.sent@.push(Forwarded::Clear(cell)));
        let mut i: usize = 0;
        while i < self.height
            invariant
                i <= self.height,
                self.width == old(self).width,
                self.height == old(self).height,
                self.row_offset == 0,
                self.sent@ == old(self).sent@.push(Forwarded::Clear(cell)),
                self.buf@.len() == self.height,
                forall|k: int|
                    0 <= k < i ==> (#[trigger] self.buf@[k])@ == blank_row(self.width as nat, cell),
                forall|k: int|
                    i <= k < self.height ==> (#[trigger] self.buf@[k])@.len() == self.width,
                self.width > 0,
            decreases self.height - i,
        {
            let row = Self::row_of(self.width, cell);
            self.buf.set(i, row);
            i = i + 1;
        }
        assert(self@ =~= filled(self.height as nat, self.width as nat, cell)) by {
            assert forall|r: int| 0 <= r < self.height implies #[trigger] self@[r] =~= blank_row(
                self.width as nat,
                cell,
            ) by {
                assert(stored_row(0, self.height as int, r) == r);
            }
        }
    }
}

} // verus!
