//! Components: the unit of UI behavior.
//!
//! A component translates input events into actions, mutates its own state
//! only when an action is dispatched to it, and renders itself into a
//! sub-rectangle of the frame's character grid. The concrete component
//! variants form one closed capability interface, composed via the layout
//! tree.

use vstd::prelude::*;

use crate::action::{Action, Tags};
use crate::charbuf::{blank_cell, Cell, CharBuffer};
use crate::event::{KeyEvent, MouseEvent};
use crate::geometry::{Position, Rect};
use crate::identifier::{ComponentId, Id};
use crate::input::KeyTreeNode;
use crate::logger::LogStore;

verus! {

/// A component that draws nothing and ignores all input.
#[derive(Debug, Clone, Copy, PartialEq, Eq, Structural)]
pub struct EmptyComponent;

impl Default for EmptyComponent {
    /// There is only one empty component.
    fn default() -> (r: Self)
        ensures
            r == EmptyComponent,
    {
        EmptyComponent
    }
}

/// A component that draws a run of text, row-major, into its rectangle.
#[derive(Debug, PartialEq, Eq)]
pub struct TextComponent {
    pub text: String,
}

/// The closed set of concrete component behaviors.
#[derive(Debug)]
pub enum ComponentKind {
    /// Draws nothing.
    Empty,
    /// Draws its text row-major across its rectangle.
    Text(TextComponent),
    /// Draws the most recent log lines, one per row, newest first.
    Logger(LogStore),
}

/// The cell that a text component paints at `(x, y)` inside `rect`: the
/// characters of the text laid out row-major, blank past its end.
pub open spec fn text_cell(text: Seq<char>, rect: Rect, x: int, y: int) -> Cell {
    let idx = (y - rect.corner1.y) * rect.spec_width() + (x - rect.corner1.x);
    if idx < text.len() {
        Cell { ch: text[idx], bold: false }
    } else {
        blank_cell()
    }
}

/// The cell that a line-oriented component paints at `(x, y)` inside
/// `rect`: one line per row, blank past the end of each line and below the
/// last line.
pub open spec fn lines_cell(lines: Seq<Seq<char>>, rect: Rect, x: int, y: int) -> Cell {
    let r = y - rect.corner1.y;
    let c = x - rect.corner1.x;
    if r < lines.len() && c < lines[r].len() {
        Cell { ch: lines[r][c], bold: false }
    } else {
        blank_cell()
    }
}

/// A point lies inside a rectangle.
pub open spec fn in_rect(rect: Rect, x: int, y: int) -> bool {
    rect.corner1.x <= x < rect.corner2.x && rect.corner1.y <= y < rect.corner2.y
}

/// A rectangle lies inside a buffer.
pub open spec fn rect_in_buffer(rect: Rect, buf: CharBuffer) -> bool {
    rect.corner2.x <= buf.spec_width() && rect.corner2.y <= buf.spec_height()
}

/// The rectangle covering a whole grid of the given extent.
pub open spec fn full_rect(width: int, height: int) -> Rect {
    Rect {
        corner1: Position { x: 0, y: 0 },
        corner2: Position { x: width as usize, y: height as usize },
    }
}

impl ComponentKind {
    /// The cell this component paints at `(x, y)` inside `rect`, or `None`
    /// if it leaves the cell as it was.
    pub open spec fn paints(&self, rect: Rect, x: int, y: int) -> Option<Cell> {
        match self {
            ComponentKind::Empty => None,
            ComponentKind::Text(t) => Some(text_cell(t.text@, rect, x, y)),
            ComponentKind::Logger(lg) => Some(lines_cell(lg.entries(), rect, x, y)),
        }
    }
}

/// One leaf of the UI: a concrete behavior plus the routing state the
/// dispatch loop reads.
#[derive(Debug)]
pub struct Component {
    /// The identifier this component was registered under.
    pub id: ComponentId,
    /// What the component draws and how it behaves.
    pub kind: ComponentKind,
    /// Whether the component consumes key events outright, stopping
    /// propagation.
    pub key_opaque: bool,
    /// Whether the component consumes mouse events outright.
    pub mouse_opaque: bool,
    /// The component's key bindings: key sequences translated to actions.
    pub keymap: KeyTreeNode,
    /// The dot-separated topics this component subscribes to.
    pub subscriptions: Vec<Tags>,
    /// A follow-up action to hand back on the next dispatch, if any.
    pub pending: Option<Action>,
    /// How many actions have been dispatched to this component.
    pub dispatched: u64,
    /// The action dispatched most recently, if any.
    pub last_action: Option<Action>,
}

impl Component {
    /// A component is well formed when its key map is.
    pub open spec fn wf(&self) -> bool {
        self.keymap.wf()
    }

    /// The action this component's bindings give for one key event: the
    /// action bound to the single-key sequence `[key]`, or `Noop`.
    pub open spec fn key_action(&self, key: KeyEvent) -> Action {
        match self.keymap.lookup(seq![key]) {
            Some(n) => match n.action {
                Some((a, _)) => a,
                None => Action::Noop,
            },
            None => Action::Noop,
        }
    }

    /// A component with the given behavior, transparent to events, with no
    /// bindings and no pending action.
    pub fn new(id: ComponentId, kind: ComponentKind) -> (r: Component)
        ensures
            r.wf(),
            r.id == id,
            r.kind == kind,
            !r.key_opaque,
            !r.mouse_opaque,
            r.keymap.children@.len() == 0,
            r.keymap.action is None,
            r.subscriptions@.len() == 0,
            r.pending is None,
            r.dispatched == 0,
            r.last_action is None,
    {
        Component {
            id,
            kind,
            key_opaque: false,
            mouse_opaque: false,
            keymap: KeyTreeNode::new(),
            subscriptions: Vec::new(),
            pending: None,
            dispatched: 0,
            last_action: None,
        }
    }

    /// A component that draws nothing.
    pub fn empty(id: ComponentId) -> (r: Component)
        ensures
            r.wf(),
            r.id == id,
            r.kind is Empty,
            !r.key_opaque,
            !r.mouse_opaque,
            r.pending is None,
            r.dispatched == 0,
    {
        Component::new(id, ComponentKind::Empty)
    }

    /// Pure translation of a key event to an action through the key map;
    /// never mutates state.
    pub fn handle_key_event(&self, key: KeyEvent) -> (r: Action)
        requires
            self.wf(),
        ensures
            r == self.key_action(key),
    {
        let mut keys: Vec<KeyEvent> = Vec::new();
        keys.push(key);
        proof {
            assert(keys@ =~= seq![key]);
        }
        match self.keymap.get_action(&keys) {
            Some(node) => match &node.action {
                Some(bound) => bound.0,
                None => Action::Noop,
            },
            None => Action::Noop,
        }
    }

    /// Pure translation of a mouse event to an action; the built-in
    /// components define no mouse bindings, so this is always `Noop`.
    pub fn handle_mouse_event(&self, mouse: MouseEvent) -> (r: Action)
        ensures
            r == Action::Noop,
    {
        let _ = mouse;
        Action::Noop
    }

    /// Whether this component consumes key events outright.
    pub fn key_event_opaque(&self) -> (r: bool)
        ensures
            r == self.key_opaque,
    {
        self.key_opaque
    }

    /// Whether this component consumes mouse events outright.
    pub fn mouse_event_opaque(&self) -> (r: bool)
        ensures
            r == self.mouse_opaque,
    {
        self.mouse_opaque
    }

    /// What dispatching an action does to a component: the delivery is
    /// recorded, and the pending follow-up, if one was set, is handed back
    /// exactly once.
    pub open spec fn after_dispatch(self, action: Action) -> (Component, Option<Action>) {
        (
            Component {
                pending: None,
                dispatched: if self.dispatched < u64::MAX {
                    (self.dispatched + 1) as u64
                } else {
                    u64::MAX
                },
                last_action: Some(action),
                ..self
            },
            self.pending,
        )
    }

    /// Applies an action to this component's state and optionally returns
    /// a follow-up action to be re-injected into the bus on a later cycle.
    ///
    /// The delivery is recorded; the pending follow-up, if one was set, is
    /// handed back exactly once.
    pub fn dispatch(&mut self, action: Action) -> (r: Option<Action>)
        ensures
            (*final(self), r) == old(self).after_dispatch(action),
            final(self).wf() == old(self).wf(),
            r == old(self).pending,
            final(self).pending is None,
            final(self).last_action == Some(action),
            final(self).dispatched == if old(self).dispatched < u64::MAX {
                old(self).dispatched + 1
            } else {
                u64::MAX as int
            },
            final(self).id == old(self).id,
            final(self).kind == old(self).kind,
            final(self).key_opaque == old(self).key_opaque,
            final(self).mouse_opaque == old(self).mouse_opaque,
            final(self).keymap == old(self).keymap,
            final(self).subscriptions == old(self).subscriptions,
    {
        if self.dispatched < u64::MAX {
            self.dispatched = self.dispatched + 1;
        }
        self.last_action = Some(action);
        let r = self.pending.take();
        r
    }

    /// Draws this component into `rect`, leaving every cell outside `rect`
    /// exactly as it was.
    pub fn render(&self, buf: &mut CharBuffer, rect: Rect)
        requires
            old(buf).wf(),
            rect.wf(),
            rect_in_buffer(rect, *old(buf)),
        ensures
            final(buf).wf(),
            final(buf).spec_width() == old(buf).spec_width(),
            final(buf).spec_height() == old(buf).spec_height(),
            forall|x: int, y: int|
                0 <= x < old(buf).spec_width() && 0 <= y < old(buf).spec_height() && !in_rect(
                    rect,
                    x,
                    y,
                ) ==> final(buf).at(x, y) == old(buf).at(x, y),
            forall|x: int, y: int|
                in_rect(rect, x, y) ==> final(buf).at(x, y) == match self.kind.paints(
                    rect,
                    x,
                    y,
                ) {
                    Some(c) => c,
                    None => old(buf).at(x, y),
                },
    {
        match &self.kind {
            ComponentKind::Empty => {},
            ComponentKind::Text(t) => {
                render_text(buf, rect, &t.text);
            },
            ComponentKind::Logger(lg) => {
                let lines = lg.lines();
                render_lines(buf, rect, &lines);
                proof {
                    assert(lines@.map_values(|s: String| s@) == lg.entries());
                }
            },
        }
    }
}

/// Paints `text` row-major into `rect`, blanking the cells past its end.
#[verifier::rlimit(80)]
#[verifier::spinoff_prover]
pub(crate) fn render_text(buf: &mut CharBuffer, rect: Rect, text: &String)
    requires
        old(buf).wf(),
        rect.wf(),
        rect_in_buffer(rect, *old(buf)),
    ensures
        final(buf).wf(),
        final(buf).spec_width() == old(buf).spec_width(),
        final(buf).spec_height() == old(buf).spec_height(),
        forall|x: int, y: int|
            0 <= x < old(buf).spec_width() && 0 <= y < old(buf).spec_height() && !in_rect(
                rect,
                x,
                y,
            ) ==> final(buf).at(x, y) == old(buf).at(x, y),
        forall|x: int, y: int|
            in_rect(rect, x, y) ==> final(buf).at(x, y) == text_cell(text@, rect, x, y),
{
    let w = rect.width();
    let len = text.as_str().unicode_len();
    let mut row: usize = rect.corner1.y;
    let mut start: usize = 0;
    let ghost ideal: int = 0;
    while row < rect.corner2.y
        invariant
            old(buf).wf(),
            buf.wf(),
            rect.wf(),
            rect_in_buffer(rect, *old(buf)),
            buf.spec_width() == old(buf).spec_width(),
            buf.spec_height() == old(buf).spec_height(),
            rect.corner1.y <= row <= rect.corner2.y,
            w == rect.spec_width(),
            len == text@.len(),
            ideal == (row - rect.corner1.y) * rect.spec_width(),
            ideal >= 0,
            start == if ideal < len {
                ideal
            } else {
                len as int
            },
            forall|x: int, y: int|
                0 <= x < old(buf).spec_width() && 0 <= y < old(buf).spec_height() && !(in_rect(
                    rect,
                    x,
                    y,
                ) && y < row) ==> buf.at(x, y) == old(buf).at(x, y),
            forall|x: int, y: int|
                in_rect(rect, x, y) && y < row ==> buf.at(x, y) == text_cell(text@, rect, x, y),
        decreases rect.corner2.y - row,
    {
        let end: usize = if len - start < w {
            len
        } else {
            start + w
        };
        let slice = text.as_str().substring_char(start, end);
        let ghost before = *buf;
        buf.put_line(row, rect.corner1.x, rect.corner2.x, slice);
        proof {
            lemma_untouched_step(*old(buf), before, *buf, rect, row as int);
            assert forall|x: int| rect.corner1.x <= x < rect.corner2.x implies buf.at(
                x,
                row as int,
            ) == text_cell(text@, rect, x, row as int) by {
                let off = x - rect.corner1.x;
                assert(slice@ == text@.subrange(start as int, end as int));
                if ideal < len {
                    assert(start == ideal);
                    if off < end - start {
                        assert(slice@[off] == text@[ideal + off]);
                    }
                } else {
                    assert(end == start);
                    assert(slice@.len() == 0);
                }
            }
            assert((row + 1 - rect.corner1.y) * rect.spec_width() == (row - rect.corner1.y)
                * rect.spec_width() + rect.spec_width()) by (nonlinear_arith);
        }
        row = row + 1;
        proof {
            ideal = ideal + rect.spec_width();
        }
        start = if len - start < w {
            len
        } else {
            start + w
        };
    }
}

/// Painting one row inside the rectangle extends the set of rows already
/// painted without touching anything outside the rectangle.
proof fn lemma_untouched_step(pre: CharBuffer, mid: CharBuffer, post: CharBuffer, rect: Rect, row: int)
    requires
        mid.spec_width() == pre.spec_width(),
        mid.spec_height() == pre.spec_height(),
        post.spec_width() == pre.spec_width(),
        post.spec_height() == pre.spec_height(),
        rect.corner1.y <= row < rect.corner2.y,
        forall|x: int, y: int|
            0 <= x < pre.spec_width() && 0 <= y < pre.spec_height() && !(in_rect(rect, x, y) && y
                < row) ==> mid.at(x, y) == pre.at(x, y),
        forall|x: int, y: int|
            0 <= x < pre.spec_width() && 0 <= y < pre.spec_height() && !(y == row
                && rect.corner1.x <= x < rect.corner2.x) ==> post.at(x, y) == mid.at(x, y),
    ensures
        forall|x: int, y: int|
            0 <= x < pre.spec_width() && 0 <= y < pre.spec_height() && !(in_rect(rect, x, y) && y
                < row + 1) ==> post.at(x, y) == pre.at(x, y),
{
    assert forall|x: int, y: int|
        0 <= x < pre.spec_width() && 0 <= y < pre.spec_height() && !(in_rect(rect, x, y) && y < row
            + 1) implies post.at(x, y) == pre.at(x, y) by {
        assert(!(y == row && rect.corner1.x <= x < rect.corner2.x));
        assert(!(in_rect(rect, x, y) && y < row));
        assert(mid.at(x, y) == pre.at(x, y));
        assert(post.at(x, y) == mid.at(x, y));
    }
}

/// Paints `lines` into `rect`, one line per row from the top, blanking the
/// rest of the rectangle.
pub(crate) fn render_lines(buf: &mut CharBuffer, rect: Rect, lines: &Vec<String>)
    requires
        old(buf).wf(),
        rect.wf(),
        rect_in_buffer(rect, *old(buf)),
    ensures
        final(buf).wf(),
        final(buf).spec_width() == old(buf).spec_width(),
        final(buf).spec_height() == old(buf).spec_height(),
        forall|x: int, y: int|
            0 <= x < old(buf).spec_width() && 0 <= y < old(buf).spec_height() && !in_rect(
                rect,
                x,
                y,
            ) ==> final(buf).at(x, y) == old(buf).at(x, y),
        forall|x: int, y: int|
            in_rect(rect, x, y) ==> final(buf).at(x, y) == lines_cell(
                lines@.map_values(|s: String| s@),
                rect,
                x,
                y,
            ),
{
    let mut row: usize = rect.corner1.y;
    while row < rect.corner2.y
        invariant
            old(buf).wf(),
            buf.wf(),
            rect.wf(),
            rect_in_buffer(rect, *old(buf)),
            buf.spec_width() == old(buf).spec_width(),
            buf.spec_height() == old(buf).spec_height(),
            rect.corner1.y <= row <= rect.corner2.y,
            forall|x: int, y: int|
                0 <= x < old(buf).spec_width() && 0 <= y < old(buf).spec_height() && !(in_rect(
                    rect,
                    x,
                    y,
                ) && y < row) ==> buf.at(x, y) == old(buf).at(x, y),
            forall|x: int, y: int|
                in_rect(rect, x, y) && y < row ==> buf.at(x, y) == lines_cell(
                    lines@.map_values(|s: String| s@),
                    rect,
                    x,
                    y,
                ),
        decreases rect.corner2.y - row,
    {
        let r = row - rect.corner1.y;
        if r < lines.len() {
            let line = &lines[r];
            buf.put_line(row, rect.corner1.x, rect.corner2.x, line.as_str());
        } else {
            buf.put_line(row, rect.corner1.x, rect.corner2.x, "");
            proof {
                reveal_strlit("");
            }
        }
        row = row + 1;
    }
}

/// The mounted state of a registered component: its identifier and its
/// named fields, if it keeps any.
#[derive(Debug, PartialEq, Eq)]
pub struct ComponentState {
    pub component_id: Id,
    pub fields: Option<Vec<(String, u64)>>,
}

impl ComponentState {
    /// State for a component that keeps no fields.
    pub fn empty(component_id: Id) -> (r: ComponentState)
        ensures
            r.component_id == component_id,
            r.fields is None,
    {
        ComponentState { component_id, fields: None }
    }

    /// State over the given named fields.
    pub fn new(component_id: Id, fields: Vec<(String, u64)>) -> (r: ComponentState)
        ensures
            r.component_id == component_id,
            r.fields == Some(fields),
    {
        ComponentState { component_id, fields: Some(fields) }
    }
}

/// A component instance mounted into the view: which component it is and
/// the state it was mounted with.
#[derive(Debug, PartialEq, Eq)]
pub struct MountedComponent {
    pub component_id: ComponentId,
    pub state: ComponentState,
}

impl MountedComponent {
    pub fn new(component_id: ComponentId, state: ComponentState) -> (r: MountedComponent)
        ensures
            r.component_id == component_id,
            r.state == state,
    {
        MountedComponent { component_id, state }
    }
}

/// The logger component: draws the most recent log lines, newest first.
pub fn logger_component(id: ComponentId) -> (r: Component)
    ensures
        r.wf(),
        r.id == id,
        r.kind matches ComponentKind::Logger(lg) && lg.entries() == Seq::<Seq<char>>::empty(),
        !r.key_opaque,
        !r.mouse_opaque,
        r.keymap.children@.len() == 0,
        r.keymap.action is None,
        r.subscriptions@.len() == 0,
        r.pending is None,
        r.dispatched == 0,
        r.last_action is None,
{
    Component::new(id, ComponentKind::Logger(LogStore::new()))
}

} // verus!
