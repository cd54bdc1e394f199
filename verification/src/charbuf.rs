//! The abstract character grid that a completed render pass produces.
//!
//! A `CharBuffer` is a fixed-size grid of cells, each holding a character and
//! a minimal style. The compositor owns two of them and swaps them after each
//! render pass; the terminal writer consumes one per pass.

use vstd::prelude::*;

use crate::geometry::Position;

verus! {

/// Relies on `String::push`: appends the given character to the end of the
/// string.
pub assume_specification[ String::push ](s: &mut String, ch: char)
    ensures
        final(s)@ == old(s)@.push(ch),
;

/// One cell of the grid: a character plus a minimal style.
#[derive(Debug, Clone, Copy, PartialEq, Eq, Structural)]
pub struct Cell {
    pub ch: char,
    pub bold: bool,
}

/// The blank cell that fills a freshly created buffer.
pub open spec fn blank_cell() -> Cell {
    Cell { ch: ' ', bold: false }
}

impl Cell {
    /// The blank cell: a space with no styling.
    pub fn blank() -> (r: Cell)
        ensures
            r == blank_cell(),
    {
        Cell { ch: ' ', bold: false }
    }
}

/// A fixed-size grid of cells representing one fully composed frame.
#[derive(Debug, PartialEq, Eq)]
pub struct CharBuffer {
    pub width: usize,
    pub height: usize,
    pub rows: Vec<Vec<Cell>>,
}

impl CharBuffer {
    /// A buffer is well formed when it holds exactly `height` rows of
    /// `width` cells each.
    pub open spec fn wf(&self) -> bool {
        &&& self.rows@.len() == self.height
        &&& forall|y: int| 0 <= y < self.height ==> (#[trigger] self.rows@[y])@.len() == self.width
    }

    pub open spec fn spec_width(&self) -> int {
        self.width as int
    }

    pub open spec fn spec_height(&self) -> int {
        self.height as int
    }

    /// The cell at column `x` of row `y`.
    pub open spec fn at(&self, x: int, y: int) -> Cell {
        self.rows@[y]@[x]
    }

    /// Every cell of the buffer is blank.
    pub open spec fn all_blank(&self) -> bool {
        forall|x: int, y: int|
            0 <= x < self.spec_width() && 0 <= y < self.spec_height() ==> self.at(x, y)
                == blank_cell()
    }

    pub fn width(&self) -> (r: usize)
        ensures
            r == self.spec_width(),
    {
        self.width
    }

    pub fn height(&self) -> (r: usize)
        ensures
            r == self.spec_height(),
    {
        self.height
    }

    /// A fresh buffer of the given extent with every cell blank.
    pub fn new(size: Position) -> (r: CharBuffer)
        ensures
            r.wf(),
            r.spec_width() == size.x,
            r.spec_height() == size.y,
            r.all_blank(),
    {
        let mut rows: Vec<Vec<Cell>> = Vec::new();
        let mut y: usize = 0;
        while y < size.y
            invariant
                0 <= y <= size.y,
                rows@.len() == y,
                forall|r: int| 0 <= r < y ==> (#[trigger] rows@[r])@.len() == size.x,
                forall|r: int, c: int|
                    0 <= r < y && 0 <= c < size.x ==> #[trigger] rows@[r]@[c] == blank_cell(),
            decreases size.y - y,
        {
            let mut row: Vec<Cell> = Vec::new();
            let mut x: usize = 0;
            while x < size.x
                invariant
                    0 <= x <= size.x,
                    row@.len() == x,
                    forall|c: int| 0 <= c < x ==> row@[c] == blank_cell(),
                decreases size.x - x,
            {
                row.push(Cell::blank());
                x = x + 1;
            }
            rows.push(row);
            y = y + 1;
        }
        CharBuffer { width: size.x, height: size.y, rows }
    }

    /// The cell at column `x` of row `y`.
    pub fn cell_at(&self, x: usize, y: usize) -> (r: Cell)
        requires
            self.wf(),
            x < self.spec_width(),
            y < self.spec_height(),
        ensures
            r == self.at(x as int, y as int),
    {
        self.rows[y][x]
    }

    /// Overwrites the cell at column `x` of row `y`, leaving every other
    /// cell unchanged.
    pub fn set_cell(&mut self, x: usize, y: usize, cell: Cell)
        requires
            old(self).wf(),
            x < old(self).spec_width(),
            y < old(self).spec_height(),
        ensures
            final(self).wf(),
            final(self).spec_width() == old(self).spec_width(),
            final(self).spec_height() == old(self).spec_height(),
            final(self).at(x as int, y as int) == cell,
            forall|a: int, b: int|
                0 <= a < old(self).spec_width() && 0 <= b < old(self).spec_height() && !(a == x && b
                    == y) ==> final(self).at(a, b) == old(self).at(a, b),
    {
        let row = &mut self.rows[y];
        row.set(x, cell);
    }

    /// Writes the characters of `s` into row `row`, starting at column
    /// `col0`; columns from the end of `s` up to `col1` are blanked. Cells
    /// outside `row` or outside `[col0, col1)` are untouched.
    pub fn put_line(&mut self, row: usize, col0: usize, col1: usize, s: &str)
        requires
            old(self).wf(),
            row < old(self).spec_height(),
            col0 <= col1 <= old(self).spec_width(),
        ensures
            final(self).wf(),
            final(self).spec_width() == old(self).spec_width(),
            final(self).spec_height() == old(self).spec_height(),
            forall|a: int|
                col0 <= a < col1 ==> final(self).at(a, row as int) == if a - col0 < s@.len() {
                    Cell { ch: s@[a - col0], bold: false }
                } else {
                    blank_cell()
                },
            forall|a: int, b: int|
                0 <= a < old(self).spec_width() && 0 <= b < old(self).spec_height() && !(b == row
                    && col0 <= a < col1) ==> final(self).at(a, b) == old(self).at(a, b),
    {
        let len = s.unicode_len();
        let mut x: usize = col0;
        while x < col1
            invariant
                old(self).wf(),
                self.wf(),
                col0 <= x <= col1 <= self.spec_width(),
                row < self.spec_height(),
                self.spec_width() == old(self).spec_width(),
                self.spec_height() == old(self).spec_height(),
                len == s@.len(),
                forall|a: int|
                    col0 <= a < x ==> self.at(a, row as int) == if a - col0 < s@.len() {
                        Cell { ch: s@[a - col0], bold: false }
                    } else {
                        blank_cell()
                    },
                forall|a: int, b: int|
                    0 <= a < old(self).spec_width() && 0 <= b < old(self).spec_height() && !(b
                        == row && col0 <= a < x) ==> self.at(a, b) == old(self).at(a, b),
            decreases col1 - x,
        {
            let cell = if x - col0 < len {
                Cell { ch: s.get_char(x - col0), bold: false }
            } else {
                Cell::blank()
            };
            self.set_cell(x, row, cell);
            x = x + 1;
        }
    }

    /// The rows of the buffer as strings, for a terminal writer to emit.
    pub fn rows(&self) -> (r: Vec<String>)
        requires
            self.wf(),
        ensures
            r@.len() == self.spec_height(),
            forall|y: int|
                0 <= y < self.spec_height() ==> (#[trigger] r@[y])@ == Seq::new(
                    self.spec_width() as nat,
                    |x: int| self.at(x, y).ch,
                ),
    {
        let mut out: Vec<String> = Vec::new();
        let mut y: usize = 0;
        while y < self.height
            invariant
                self.wf(),
                0 <= y <= self.spec_height(),
                out@.len() == y,
                forall|b: int|
                    0 <= b < y ==> (#[trigger] out@[b])@ == Seq::new(
                        self.spec_width() as nat,
                        |x: int| self.at(x, b).ch,
                    ),
            decreases self.spec_height() - y,
        {
            let mut line = String::new();
            let mut x: usize = 0;
            while x < self.width
                invariant
                    self.wf(),
                    0 <= x <= self.spec_width(),
                    0 <= y < self.spec_height(),
                    line@.len() == x,
                    forall|a: int| 0 <= a < x ==> line@[a] == self.at(a, y as int).ch,
                decreases self.spec_width() - x,
            {
                let c = self.rows[y][x].ch;
                line.push(c);
                x = x + 1;
            }
            proof {
                assert(line@ =~= Seq::new(
                    self.spec_width() as nat,
                    |a: int| self.at(a, y as int).ch,
                ));
            }
            out.push(line);
            y = y + 1;
        }
        out
    }
}

impl Clone for CharBuffer {
    /// A clone has the same extent and the same cells as the original.
    fn clone(&self) -> (res: Self)
        ensures
            res.width == self.width,
            res.height == self.height,
            res.rows@.len() == self.rows@.len(),
            forall|y: int| 0 <= y < self.rows@.len() ==> #[trigger] res.rows@[y]@ == self.rows@[y]@,
    {
        let rows = clone_rows(&self.rows);
        CharBuffer { width: self.width, height: self.height, rows }
    }
}

/// Copies a grid of cells row by row.
fn clone_rows(rows: &Vec<Vec<Cell>>) -> (r: Vec<Vec<Cell>>)
    ensures
        r@.len() == rows@.len(),
        forall|y: int| 0 <= y < rows@.len() ==> #[trigger] r@[y]@ == rows@[y]@,
{
    let mut out: Vec<Vec<Cell>> = Vec::new();
    let mut y: usize = 0;
    while y < rows.len()
        invariant
            0 <= y <= rows@.len(),
            out@.len() == y,
            forall|b: int| 0 <= b < y ==> #[trigger] out@[b]@ == rows@[b]@,
        decreases rows@.len() - y,
    {
        let mut row: Vec<Cell> = Vec::new();
        let mut x: usize = 0;
        while x < rows[y].len()
            invariant
                0 <= y < rows@.len(),
                0 <= x <= rows@[y as int]@.len(),
                row@.len() == x,
                forall|a: int| 0 <= a < x ==> row@[a] == rows@[y as int]@[a],
            decreases rows@[y as int]@.len() - x,
        {
            row.push(rows[y][x]);
            x = x + 1;
        }
        proof {
            assert(row@ =~= rows@[y as int]@);
        }
        out.push(row);
        y = y + 1;
    }
    out
}

} // verus!
