//! The double-buffered compositor.
//!
//! The compositor owns exactly two buffer slots and an active-index flag.
//! `draw` stores a freshly built frame into the active slot, discarding any
//! prior render state for that slot; `render` composes the active slot if it
//! holds an undrawn frame, flips the active index, and hands out the
//! contents last shown. Rendering twice without an intervening draw returns
//! the same contents both times and flips the index at most once in all.

use vstd::prelude::*;

use crate::charbuf::CharBuffer;
use crate::frame::{frame_shows, Frame};
use crate::geometry::Position;


verus! {

/// One buffer slot: either a frame waiting to be composed, or the grid it
/// composed to.
#[derive(Debug)]
pub enum CompositorBuffer {
    Rendered(CharBuffer),
    NotRendered(Frame),
}

impl CompositorBuffer {
    /// A slot is well formed when its contents match the screen size.
    pub open spec fn wf(self, screen_size: Position) -> bool {
        match self {
            CompositorBuffer::Rendered(b) => b.wf() && b.spec_width() == screen_size.x
                && b.spec_height() == screen_size.y,
            CompositorBuffer::NotRendered(f) => f.wf() && f.screen_size == screen_size,
        }
    }

    /// A fresh slot holding an empty frame.
    pub fn new(screen_size: Position) -> (r: CompositorBuffer)
        ensures
            r.wf(screen_size),
            r matches CompositorBuffer::NotRendered(f) && f.layers@.len() == 0,
    {
        CompositorBuffer::NotRendered(Frame::new(screen_size))
    }

    /// Whether this slot has been composed.
    pub fn is_rendered(&self) -> (r: bool)
        ensures
            r == (self is Rendered),
    {
        match self {
            CompositorBuffer::Rendered(_) => true,
            CompositorBuffer::NotRendered(_) => false,
        }
    }

    /// Composes the slot's frame if it has not been composed yet; a slot
    /// already composed is left alone.
    pub fn render(&mut self, ghost_size: Ghost<Position>)
        requires
            old(self).wf(ghost_size@),
        ensures
            final(self).wf(ghost_size@),
            *final(self) is Rendered,
            *old(self) is Rendered ==> *final(self) == *old(self),
            *old(self) matches CompositorBuffer::NotRendered(f) && f.layers@.len() == 0
                ==> (*final(self) matches CompositorBuffer::Rendered(b) && b.all_blank()),
            *old(self) matches CompositorBuffer::NotRendered(f) ==> (*final(self)
                matches CompositorBuffer::Rendered(b) && frame_shows(f, b)),
    {
        match self {
            CompositorBuffer::Rendered(_) => {},
            CompositorBuffer::NotRendered(frame) => {
                let buf = frame.render();
                *self = CompositorBuffer::Rendered(buf);
            },
        }
    }

    /// The composed grid, if this slot has one.
    pub fn get_char_buffer(&self) -> (r: Option<CharBuffer>)
        ensures
            match r {
                Some(b) => *self matches CompositorBuffer::Rendered(c) && grid_eq(b, c),
                None => self is NotRendered,
            },
    {
        match self {
            CompositorBuffer::Rendered(b) => {
                let c = b.clone();
                proof {
                    lemma_clone_grid_eq(*b, c);
                }
                Some(c)
            },
            CompositorBuffer::NotRendered(_) => None,
        }
    }
}

/// Two grids show the same contents, cell for cell.
pub open spec fn grid_eq(a: CharBuffer, b: CharBuffer) -> bool {
    &&& a.width == b.width
    &&& a.height == b.height
    &&& a.rows@.len() == b.rows@.len()
    &&& forall|y: int| 0 <= y < a.rows@.len() ==> (#[trigger] a.rows@[y])@ == b.rows@[y]@
}

proof fn lemma_clone_grid_eq(a: CharBuffer, b: CharBuffer)
    requires
        b.width == a.width,
        b.height == a.height,
        b.rows@.len() == a.rows@.len(),
        forall|y: int| 0 <= y < a.rows@.len() ==> (#[trigger] b.rows@[y])@ == a.rows@[y]@,
    ensures
        grid_eq(a, b),
        grid_eq(b, a),
{
}

/// The double-buffered render target: two slots, an active index, and the
/// screen size both slots are kept at.
#[derive(Debug)]
pub struct Compositor {
    /// The slot that is active while `active` is false.
    pub slot_a: CompositorBuffer,
    /// The slot that is active while `active` is true.
    pub slot_b: CompositorBuffer,
    /// Which slot is active, that is, written by `draw`.
    pub active: bool,
    /// The extent of both slots.
    pub screen_size: Position,
}

/// What one `render` call does: an active slot holding an undrawn frame is
/// composed and the index flips, with the inactive slot untouched; an
/// active slot already composed leaves the compositor exactly as it was.
/// Either way the result shows the contents of the slot that is inactive
/// afterwards — the contents last shown.
pub open spec fn render_step(pre: Compositor, post: Compositor, r: CharBuffer) -> bool {
    &&& post.screen_size == pre.screen_size
    &&& if pre.active_slot() is Rendered {
        post == pre
    } else {
        &&& post.active == !pre.active
        &&& post.active_slot() == pre.inactive_slot()
        &&& post.inactive_slot() is Rendered
        &&& post.inactive_slot() matches CompositorBuffer::Rendered(b) ==> ({
            &&& grid_eq(r, b)
            &&& (pre.active_slot() matches CompositorBuffer::NotRendered(f) && f.layers@.len()
                == 0 ==> b.all_blank())
            &&& (pre.active_slot() matches CompositorBuffer::NotRendered(f) ==> frame_shows(
                f,
                b,
            ))
        })
    }
    &&& post.inactive_slot() matches CompositorBuffer::Rendered(b) && grid_eq(r, b)
}

impl Compositor {
    /// The slot `draw` writes.
    pub open spec fn active_slot(self) -> CompositorBuffer {
        if self.active {
            self.slot_b
        } else {
            self.slot_a
        }
    }

    /// The slot holding the contents last shown.
    pub open spec fn inactive_slot(self) -> CompositorBuffer {
        if self.active {
            self.slot_a
        } else {
            self.slot_b
        }
    }

    /// Both slots match the screen size and the inactive slot always holds
    /// composed contents, ready to hand out.
    pub open spec fn wf(self) -> bool {
        &&& self.slot_a.wf(self.screen_size)
        &&& self.slot_b.wf(self.screen_size)
        &&& self.inactive_slot() is Rendered
    }

    /// A compositor for the given screen size: the active slot holds an
    /// empty frame, the inactive slot an all-blank grid.
    pub fn new(screen_size: Position) -> (r: Compositor)
        ensures
            r.wf(),
            r.screen_size == screen_size,
            !r.active,
            r.active_slot() matches CompositorBuffer::NotRendered(f) && f.layers@.len() == 0,
            r.inactive_slot() matches CompositorBuffer::Rendered(b) && b.all_blank(),
    {
        let blank = CharBuffer::new(screen_size);
        Compositor {
            slot_a: CompositorBuffer::new(screen_size),
            slot_b: CompositorBuffer::Rendered(blank),
            active: false,
            screen_size,
        }
    }

    /// Throws both buffers away and recreates them at the new screen size.
    pub fn resize(&mut self, screen_size: Position)
        ensures
            final(self).wf(),
            final(self).screen_size == screen_size,
            !final(self).active,
            final(self).active_slot() matches CompositorBuffer::NotRendered(f) && f.layers@.len()
                == 0,
            final(self).inactive_slot() matches CompositorBuffer::Rendered(b) && b.all_blank(),
    {
        let fresh = Compositor::new(screen_size);
        *self = fresh;
    }

    /// The extent of both buffers.
    pub fn size(&self) -> (r: Position)
        ensures
            r == self.screen_size,
    {
        self.screen_size
    }

    /// Stores a freshly built frame into the active slot, discarding any
    /// prior render state for that slot. The inactive slot — the contents
    /// last shown — is untouched.
    pub fn draw(&mut self, frame: Frame)
        requires
            old(self).wf(),
            frame.wf(),
            frame.screen_size == old(self).screen_size,
        ensures
            final(self).wf(),
            final(self).screen_size == old(self).screen_size,
            final(self).active == old(self).active,
            final(self).active_slot() == CompositorBuffer::NotRendered(frame),
            final(self).inactive_slot() == old(self).inactive_slot(),
    {
        if self.active {
            self.slot_b = CompositorBuffer::NotRendered(frame);
        } else {
            self.slot_a = CompositorBuffer::NotRendered(frame);
        }
    }

    /// Composes the active slot if a frame is waiting in it, flips the
    /// active index, and returns the contents last shown. Without an
    /// intervening `draw` a second call returns the same contents and
    /// leaves the compositor untouched.
    pub fn render(&mut self) -> (r: CharBuffer)
        requires
            old(self).wf(),
        ensures
            final(self).wf(),
            render_step(*old(self), *final(self), r),
            r.wf(),
            r.spec_width() == old(self).screen_size.x,
            r.spec_height() == old(self).screen_size.y,
    {
        let ghost size = self.screen_size;
        if self.active {
            if !self.slot_b.is_rendered() {
                self.slot_b.render(Ghost(size));
                self.active = false;
            }
        } else {
            if !self.slot_a.is_rendered() {
                self.slot_a.render(Ghost(size));
                self.active = true;
            }
        }
        let out = if self.active {
            self.slot_a.get_char_buffer()
        } else {
            self.slot_b.get_char_buffer()
        };
        match out {
            Some(b) => b,
            None => vstd::pervasive::unreached(),
        }
    }
}

/// A grid showing the same contents as an all-blank grid is all blank.
pub proof fn lemma_grid_eq_all_blank(a: CharBuffer, b: CharBuffer)
    requires
        grid_eq(a, b),
        b.all_blank(),
        a.wf(),
        b.wf(),
    ensures
        a.all_blank(),
{
    assert forall|x: int, y: int|
        0 <= x < a.spec_width() && 0 <= y < a.spec_height() implies a.at(x, y)
        == crate::charbuf::blank_cell() by {
        assert(a.rows@[y]@ == b.rows@[y]@);
        assert(b.at(x, y) == crate::charbuf::blank_cell());
    }
}

/// The compositor's buffer swap is idempotent under no intervening draw:
/// calling `render` twice in a row returns the same contents both times and
/// leaves the compositor, its active index included, exactly where the
/// first call put it.
pub proof fn lemma_render_idempotent(
    c0: Compositor,
    c1: Compositor,
    r1: CharBuffer,
    c2: Compositor,
    r2: CharBuffer,
)
    requires
        c0.wf(),
        render_step(c0, c1, r1),
        render_step(c1, c2, r2),
    ensures
        c2 == c1,
        c2.active == c1.active,
        grid_eq(r2, r1),
{
    assert(c1.active_slot() is Rendered);
}

/// What changed between two composed grids: everything, after a resize, or
/// an exact set of cell positions.
#[derive(Debug, PartialEq, Eq)]
pub enum Diff {
    /// The dimensions differ; the entire buffer is considered changed.
    Full,
    /// The positions whose cells differ, in row-major order, each exactly
    /// once.
    Cells(Vec<Position>),
}

/// A position scans strictly before another in row-major order.
pub open spec fn scans_before(a: Position, b: Position) -> bool {
    a.y < b.y || (a.y == b.y && a.x < b.x)
}

/// The positions `ps` are exactly the cells on which two equally sized
/// grids differ: every listed cell differs, every differing cell is
/// listed, and no cell is listed twice.
pub open spec fn diff_cells_exact(prev: CharBuffer, cur: CharBuffer, ps: Seq<Position>) -> bool {
    &&& forall|k: int|
        0 <= k < ps.len() ==> 0 <= (#[trigger] ps[k]).x < cur.spec_width() && 0 <= ps[k].y
            < cur.spec_height() && cur.at(ps[k].x as int, ps[k].y as int) != prev.at(
            ps[k].x as int,
            ps[k].y as int,
        )
    &&& forall|x: int, y: int|
        0 <= x < cur.spec_width() && 0 <= y < cur.spec_height() && cur.at(x, y) != prev.at(x, y)
            ==> exists|k: int|
            0 <= k < ps.len() && (#[trigger] ps[k]) == (Position { x: x as usize, y: y as usize })
    &&& forall|k1: int, k2: int| 0 <= k1 < k2 < ps.len() ==> (#[trigger] ps[k1]) != (
        #[trigger] ps[k2])
}

/// Compares two composed grids: with differing dimensions the entire
/// buffer is considered changed; with equal dimensions the result is the
/// minimal set of changed cell positions — every listed cell differs,
/// every differing cell is listed, and no cell is listed twice.
#[verifier::rlimit(100)]
#[verifier::spinoff_prover]
pub fn diff(prev: &CharBuffer, cur: &CharBuffer) -> (d: Diff)
    requires
        prev.wf(),
        cur.wf(),
    ensures
        d is Full <==> !(prev.spec_width() == cur.spec_width() && prev.spec_height()
            == cur.spec_height()),
        d matches Diff::Cells(ps) ==> diff_cells_exact(*prev, *cur, ps@),
{
    if prev.width() != cur.width() || prev.height() != cur.height() {
        return Diff::Full;
    }
    let mut ps: Vec<Position> = Vec::new();
    let mut y: usize = 0;
    while y < cur.height()
        invariant
            prev.wf(),
            cur.wf(),
            prev.spec_width() == cur.spec_width(),
            prev.spec_height() == cur.spec_height(),
            0 <= y <= cur.spec_height(),
            forall|k: int|
                0 <= k < ps@.len() ==> 0 <= (#[trigger] ps@[k]).x < cur.spec_width() && 0
                    <= ps@[k].y < y && cur.at(ps@[k].x as int, ps@[k].y as int) != prev.at(
                    ps@[k].x as int,
                    ps@[k].y as int,
                ),
            forall|a: int, b: int|
                0 <= a < cur.spec_width() && 0 <= b < y && cur.at(a, b) != prev.at(a, b)
                    ==> exists|k: int|
                    0 <= k < ps@.len() && (#[trigger] ps@[k]) == (Position {
                        x: a as usize,
                        y: b as usize,
                    }),
            forall|k1: int, k2: int|
                0 <= k1 < k2 < ps@.len() ==> scans_before(#[trigger] ps@[k1], #[trigger] ps@[k2]),
        decreases cur.spec_height() - y,
    {
        let mut x: usize = 0;
        while x < cur.width()
            invariant
                prev.wf(),
                cur.wf(),
                prev.spec_width() == cur.spec_width(),
                prev.spec_height() == cur.spec_height(),
                0 <= y < cur.spec_height(),
                0 <= x <= cur.spec_width(),
                forall|k: int|
                    0 <= k < ps@.len() ==> 0 <= (#[trigger] ps@[k]).x < cur.spec_width() && (
                    ps@[k].y < y || (ps@[k].y == y && ps@[k].x < x)) && cur.at(
                        ps@[k].x as int,
                        ps@[k].y as int,
                    ) != prev.at(ps@[k].x as int, ps@[k].y as int),
                forall|a: int, b: int|
                    0 <= a < cur.spec_width() && (0 <= b < y || (b == y && 0 <= a < x)) && cur.at(
                        a,
                        b,
                    ) != prev.at(a, b) ==> exists|k: int|
                        0 <= k < ps@.len() && (#[trigger] ps@[k]) == (Position {
                            x: a as usize,
                            y: b as usize,
                        }),
                forall|k1: int, k2: int|
                    0 <= k1 < k2 < ps@.len() ==> scans_before(
                        #[trigger] ps@[k1],
                        #[trigger] ps@[k2],
                    ),
            decreases cur.spec_width() - x,
        {
            if cur.cell_at(x, y) != prev.cell_at(x, y) {
                let ghost prev_ps = ps@;
                ps.push(Position { x, y });
                proof {
                    let n = ps@.len() - 1;
                    assert(ps@[n] == (Position { x, y }));
                    assert forall|a: int, b: int|
                        0 <= a < cur.spec_width() && (0 <= b < y || (b == y && 0 <= a < x + 1))
                            && cur.at(a, b) != prev.at(a, b) implies exists|k: int|
                        0 <= k < ps@.len() && (#[trigger] ps@[k]) == (Position {
                            x: a as usize,
                            y: b as usize,
                        }) by {
                        if b == y && a == x {
                            assert(ps@[n] == (Position { x: a as usize, y: b as usize }));
                        } else {
                            let k0 = choose|k: int|
                                0 <= k < prev_ps.len() && (#[trigger] prev_ps[k]) == (Position {
                                    x: a as usize,
                                    y: b as usize,
                                });
                            assert(ps@[k0] == (Position { x: a as usize, y: b as usize }));
                        }
                    }
                }
            }
            x = x + 1;
        }
        y = y + 1;
    }
    proof {
        assert forall|k1: int, k2: int| 0 <= k1 < k2 < ps@.len() implies (#[trigger] ps@[k1]) != (
        #[trigger] ps@[k2]) by {
            assert(scans_before(ps@[k1], ps@[k2]));
        }
        assert(diff_cells_exact(*prev, *cur, ps@));
    }
    Diff::Cells(ps)
}

} // verus!
