//! A plain text buffer: a list of lines with character-level edits.

use vstd::prelude::*;

verus! {

/// Joins lines with newline characters, in order.
pub open spec fn join_lines(ls: Seq<Seq<char>>) -> Seq<char>
    decreases ls.len(),
{
    if ls.len() == 0 {
        Seq::empty()
    } else if ls.len() == 1 {
        ls[0]
    } else {
        join_lines(ls.drop_last()) + seq!['\n'] + ls.last()
    }
}

/// A text buffer: one or more lines of text.
#[derive(Debug, PartialEq, Eq)]
pub struct TextBuffer {
    pub lines: Vec<String>,
}

impl TextBuffer {
    /// The lines as mathematical sequences of characters.
    pub open spec fn view_lines(&self) -> Seq<Seq<char>> {
        self.lines@.map_values(|s: String| s@)
    }

    /// A buffer over the given lines; a buffer is never empty, so an empty
    /// list becomes one empty line.
    pub fn new(lines: Vec<String>) -> (r: TextBuffer)
        ensures
            lines@.len() == 0 ==> r.view_lines() =~= seq![Seq::<char>::empty()],
            lines@.len() > 0 ==> r.view_lines() == lines@.map_values(|s: String| s@),
            r.view_lines().len() > 0,
    {
        let mut lines = lines;
        if lines.len() == 0 {
            lines.push(String::new());
        }
        proof {
            assert(lines@.map_values(|s: String| s@).len() == lines@.len());
        }
        TextBuffer { lines }
    }

    /// The whole text, lines joined by newlines.
    pub fn text(&self) -> (r: String)
        ensures
            r@ == join_lines(self.view_lines()),
    {
        let mut out = String::new();
        let mut i: usize = 0;
        while i < self.lines.len()
            invariant
                0 <= i <= self.lines@.len(),
                i == 0 ==> out@ == Seq::<char>::empty(),
                i > 0 ==> out@ == join_lines(self.view_lines().take(i as int)),
            decreases self.lines@.len() - i,
        {
            if i > 0 {
                out.push('\n');
            }
            out.append(self.lines[i].as_str());
            proof {
                let ls = self.view_lines();
                assert(ls.take(i as int + 1).drop_last() =~= ls.take(i as int));
                assert(ls.take(i as int + 1).last() == ls[i as int]);
                if i == 0 {
                    assert(join_lines(ls.take(1)) == ls[0]);
                }
            }
            i = i + 1;
        }
        proof {
            if self.lines@.len() > 0 {
                assert(self.view_lines().take(self.lines@.len() as int) =~= self.view_lines());
            }
        }
        out
    }

    /// Inserts `c` at column `coords.0` of line `coords.1`.
    pub fn insert_char(&mut self, coords: (u16, u16), c: char)
        requires
            coords.1 < old(self).view_lines().len(),
            coords.0 <= old(self).view_lines()[coords.1 as int].len(),
        ensures
            final(self).view_lines().len() == old(self).view_lines().len(),
            final(self).view_lines()[coords.1 as int] == old(self).view_lines()[
                coords.1 as int].insert(coords.0 as int, c),
            forall|j: int|
                0 <= j < old(self).view_lines().len() && j != coords.1 ==> final(self).view_lines()[j] == old(self).view_lines()[j],
    {
        let x = coords.0 as usize;
        let y = coords.1 as usize;
        let line = &self.lines[y];
        let len = line.as_str().unicode_len();
        let mut replaced = line.as_str().substring_char(0, x).to_owned();
        replaced.push(c);
        replaced.append(self.lines[y].as_str().substring_char(x, len));
        self.lines.set(y, replaced);
        proof {
            assert(final(self).view_lines()[y as int] =~= old(self).view_lines()[
                y as int].insert(x as int, c));
        }
    }

    /// Removes the character at column `coords.0` of line `coords.1`; a
    /// column at or past the end of the line leaves the buffer unchanged.
    pub fn delete_char(&mut self, coords: (u16, u16))
        requires
            coords.1 < old(self).view_lines().len(),
        ensures
            final(self).view_lines().len() == old(self).view_lines().len(),
            coords.0 < old(self).view_lines()[coords.1 as int].len() ==> final(self).view_lines()[coords.1 as int] == old(self).view_lines()[coords.1 as int].remove(
                coords.0 as int,
            ),
            coords.0 >= old(self).view_lines()[coords.1 as int].len() ==> *final(self) == *old(self),
            forall|j: int|
                0 <= j < old(self).view_lines().len() && j != coords.1 ==> final(self).view_lines()[j] == old(self).view_lines()[j],
    {
        let x = coords.0 as usize;
        let y = coords.1 as usize;
        let line = &self.lines[y];
        let len = line.as_str().unicode_len();
        if x < len {
            let mut replaced = line.as_str().substring_char(0, x).to_owned();
            replaced.append(self.lines[y].as_str().substring_char(x + 1, len));
            self.lines.set(y, replaced);
            proof {
                assert(final(self).view_lines()[y as int] =~= old(self).view_lines()[
                    y as int].remove(x as int));
            }
        }
    }

    /// Splits line `coords.1` at column `coords.0`: the line keeps the
    /// text before the split, and the text after it becomes a new line
    /// right below.
    pub fn insert_newline(&mut self, coords: (u16, u16))
        requires
            coords.1 < old(self).view_lines().len(),
            coords.0 <= old(self).view_lines()[coords.1 as int].len(),
        ensures
            final(self).view_lines().len() == old(self).view_lines().len() + 1,
            final(self).view_lines()[coords.1 as int] == old(self).view_lines()[
                coords.1 as int].take(coords.0 as int),
            final(self).view_lines()[coords.1 as int + 1] == old(self).view_lines()[
                coords.1 as int].skip(coords.0 as int),
            forall|j: int|
                0 <= j < coords.1 ==> final(self).view_lines()[j] == old(self).view_lines()[j],
            forall|j: int|
                coords.1 + 1 < j < final(self).view_lines().len() ==> final(self).view_lines()[j]
                    == old(self).view_lines()[j - 1],
    {
        let x = coords.0 as usize;
        let y = coords.1 as usize;
        let line = &self.lines[y];
        let len = line.as_str().unicode_len();
        let kept = line.as_str().substring_char(0, x).to_owned();
        let rest = self.lines[y].as_str().substring_char(x, len).to_owned();
        self.lines.set(y, kept);
        self.lines.insert(y + 1, rest);
        proof {
            assert(final(self).view_lines()[y as int] =~= old(self).view_lines()[y as int].take(
                x as int,
            ));
            assert(final(self).view_lines()[y as int + 1] =~= old(self).view_lines()[
                y as int].skip(x as int));
        }
    }
}

/// Presentation state for a text buffer: the scroll offset and whether
/// long lines wrap.
#[derive(Debug, Clone, Copy, PartialEq, Eq, Structural)]
pub struct TextBufferState {
    pub scroll: usize,
    pub wrap: bool,
}

impl Default for TextBufferState {
    /// The initial presentation: no scroll, no wrapping.
    fn default() -> (r: Self)
        ensures
            r.scroll == 0,
            !r.wrap,
    {
        TextBufferState { scroll: 0, wrap: false }
    }
}

} // verus!
