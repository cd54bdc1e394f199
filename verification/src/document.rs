//! A document under edit: a text buffer plus a cursor and a scroll offset.

use vstd::prelude::*;

use crate::buffer::TextBuffer;

verus! {

/// The cursor position inside a document, as a column and a row.
#[derive(Debug, Clone, Copy, PartialEq, Eq, Structural)]
pub struct Cursor {
    pub x: u16,
    pub y: u16,
}

impl Cursor {
    /// A cursor at the top-left corner.
    pub fn new() -> (r: Cursor)
        ensures
            r.x == 0,
            r.y == 0,
    {
        Cursor { x: 0, y: 0 }
    }
}

/// A document: its text, the cursor, and the scroll offset.
#[derive(Debug, PartialEq, Eq)]
pub struct Document {
    pub buf: TextBuffer,
    pub cursor: Cursor,
    pub scroll: (u16, u16),
}

impl Document {
    /// The cursor points at a column inside or just past the end of an
    /// existing line.
    pub open spec fn wf(&self) -> bool {
        &&& (self.cursor.y as int) < self.buf.view_lines().len()
        &&& self.cursor.x <= self.buf.view_lines()[self.cursor.y as int].len()
    }

    /// An empty document with the cursor at the top-left corner.
    pub fn new() -> (r: Document)
        ensures
            r.wf(),
            r.buf.view_lines() =~= seq![Seq::<char>::empty()],
            r.cursor == (Cursor { x: 0u16, y: 0u16 }),
            r.scroll == (0u16, 0u16),
    {
        Document { buf: TextBuffer::new(Vec::new()), cursor: Cursor::new(), scroll: (0, 0) }
    }

    /// A document over the given lines, cursor at the top-left corner.
    pub fn from_lines(lines: Vec<String>) -> (r: Document)
        ensures
            r.wf(),
            lines@.len() == 0 ==> r.buf.view_lines() =~= seq![Seq::<char>::empty()],
            lines@.len() > 0 ==> r.buf.view_lines() == lines@.map_values(|s: String| s@),
            r.cursor == (Cursor { x: 0u16, y: 0u16 }),
    {
        let buf = TextBuffer::new(lines);
        Document { buf, cursor: Cursor::new(), scroll: (0, 0) }
    }

    /// Inserts a character at the cursor; the cursor itself stays put.
    pub fn insert_char(&mut self, c: char)
        requires
            old(self).wf(),
        ensures
            final(self).wf(),
            final(self).buf.view_lines()[old(self).cursor.y as int] == old(self).buf.view_lines()[old(self).cursor.y as int].insert(old(self).cursor.x as int, c),
            forall|j: int|
                0 <= j < old(self).buf.view_lines().len() && j != old(self).cursor.y ==> final(self).buf.view_lines()[j] == old(self).buf.view_lines()[j],
            final(self).cursor == old(self).cursor,
            final(self).scroll == old(self).scroll,
    {
        let coords = (self.cursor.x, self.cursor.y);
        self.buf.insert_char(coords, c);
    }

    /// Deletes the character at the cursor; with the cursor at the end of
    /// its line, nothing changes.
    pub fn delete_char(&mut self)
        requires
            old(self).wf(),
        ensures
            final(self).wf(),
            (old(self).cursor.x as int) < old(self).buf.view_lines()[old(self).cursor.y as int].len() ==> final(self).buf.view_lines()[old(self).cursor.y as int]
                == old(self).buf.view_lines()[old(self).cursor.y as int].remove(
                old(self).cursor.x as int,
            ),
            (old(self).cursor.x as int) >= old(self).buf.view_lines()[old(self).cursor.y as int].len() ==> *final(self) == *old(self),
            forall|j: int|
                0 <= j < old(self).buf.view_lines().len() && j != old(self).cursor.y ==> final(self).buf.view_lines()[j] == old(self).buf.view_lines()[j],
            final(self).cursor == old(self).cursor,
    {
        let coords = (self.cursor.x, self.cursor.y);
        self.buf.delete_char(coords);
    }

    /// Splits the cursor's line at the cursor: the text after the cursor
    /// moves to a new line below, and the cursor moves to its start.
    pub fn insert_newline(&mut self)
        requires
            old(self).wf(),
            old(self).cursor.y < u16::MAX,
        ensures
            final(self).wf(),
            final(self).buf.view_lines().len() == old(self).buf.view_lines().len() + 1,
            final(self).buf.view_lines()[old(self).cursor.y as int] == old(self).buf.view_lines()[old(self).cursor.y as int].take(old(self).cursor.x as int),
            final(self).buf.view_lines()[old(self).cursor.y as int + 1] == old(self).buf.view_lines()[old(self).cursor.y as int].skip(old(self).cursor.x as int),
            final(self).cursor.x == 0,
            final(self).cursor.y == old(self).cursor.y + 1,
    {
        let coords = (self.cursor.x, self.cursor.y);
        self.buf.insert_newline(coords);
        self.cursor = Cursor { x: 0, y: self.cursor.y + 1 };
    }

    /// Where the cursor stands, as a column and a row.
    pub fn cursor_coords(&self) -> (r: (u16, u16))
        ensures
            r.0 == self.cursor.x,
            r.1 == self.cursor.y,
    {
        (self.cursor.x, self.cursor.y)
    }
}

} // verus!
