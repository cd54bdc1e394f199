//! The component tree: tiled layout nodes, floating layers, and the root
//! that composes them.
//!
//! Key and mouse events walk from the root toward the focused child at each
//! branch. If any node on that path declares itself opaque for the event
//! kind, the event is delivered only to the nearest such node to the root
//! and propagation stops; otherwise it is delivered to every node on the
//! path, so ancestors can react to events their focused descendant ignores.

use vstd::prelude::*;

use crate::action::Action;
use crate::charbuf::{Cell, CharBuffer};
use crate::component::{in_rect, rect_in_buffer, Component};
use crate::event::KeyEvent;
use crate::geometry::{Orientation, Rect};
use crate::identifier::ComponentId;
use crate::layout::{child_rect, lemma_granted_bounds, lemma_granted_monotone, split_rect, Constraint};

verus! {

/// Errors raised while building a tree node.
#[derive(Debug, Clone, Copy, PartialEq, Eq, Structural)]
pub enum TreeError {
    /// A branch must carry exactly one constraint per child.
    ConstraintMismatch,
    /// A non-empty branch must focus one of its children.
    FocusOutOfRange,
}

/// A recursive layout unit: a leaf holding one component, or a branch
/// splitting its rectangle among ordered children.
#[derive(Debug)]
pub enum ComponentTreeNode {
    Leaf {
        component: Component,
    },
    Branch {
        /// The ordered children, one per constraint.
        children: Vec<ComponentTreeNode>,
        /// The axis along which the branch splits its rectangle.
        direction: Orientation,
        /// One size constraint per child.
        constraints: Vec<Constraint>,
        /// The index of the child that owns focus, when there are children.
        focused: usize,
        /// The branch's own event handler, so that the branch can observe
        /// events on the focus path through it; a branch without one takes
        /// no part in delivery.
        handler: Option<Component>,
    },
}

/// What routing one event through the tree produced: which components the
/// event was delivered to (in root-to-leaf order), the action the deepest
/// delivered handler returned, and whether an opaque node consumed the
/// event.
#[derive(Debug)]
pub struct KeyRouting {
    pub delivered: Vec<ComponentId>,
    pub action: Action,
    pub consumed: bool,
}

impl ComponentTreeNode {
    /// A tree is well formed when every branch has exactly one constraint
    /// per child, every non-empty branch focuses an existing child, and
    /// every component in it is well formed.
    pub open spec fn wf(self) -> bool
        decreases self,
    {
        match self {
            ComponentTreeNode::Leaf { component } => component.wf(),
            ComponentTreeNode::Branch { children, constraints, focused, handler, .. } => {
                &&& constraints@.len() == children@.len()
                &&& children@.len() > 0 ==> focused < children@.len()
                &&& children@.len() == 0 ==> focused == 0
                &&& handler matches Some(h) ==> h.wf()
                &&& forall|i: int| 0 <= i < children@.len() ==> (#[trigger] children@[i]).wf()
            },
        }
    }

    /// Whether following `focused` from here reaches a leaf.
    pub open spec fn has_focus(self) -> bool
        decreases self,
    {
        match self {
            ComponentTreeNode::Leaf { .. } => true,
            ComponentTreeNode::Branch { children, focused, .. } => {
                focused < children@.len() && children@[focused as int].has_focus()
            },
        }
    }

    /// The focused leaf's component, when the focus path reaches a leaf.
    pub open spec fn spec_focused(self) -> Option<Component>
        decreases self,
    {
        match self {
            ComponentTreeNode::Leaf { component } => Some(component),
            ComponentTreeNode::Branch { children, focused, .. } => {
                if focused < children@.len() {
                    children@[focused as int].spec_focused()
                } else {
                    None
                }
            },
        }
    }

    /// Whether some node on the focus path is opaque to key events; the
    /// nearest one to the root consumes the event.
    pub open spec fn path_key_opaque(self) -> bool
        decreases self,
    {
        match self {
            ComponentTreeNode::Leaf { component } => component.key_opaque,
            ComponentTreeNode::Branch { children, focused, handler, .. } => {
                ||| (handler matches Some(h) && h.key_opaque)
                ||| (focused < children@.len() && children@[focused as int].path_key_opaque())
            },
        }
    }

    /// What routing a key event through this node produces: the delivered
    /// component identifiers in root-to-leaf order, the resulting action,
    /// and whether an opaque node consumed the event.
    pub open spec fn spec_route_key(self, key: KeyEvent) -> (Seq<ComponentId>, Action, bool)
        decreases self,
    {
        match self {
            ComponentTreeNode::Leaf { component } => {
                (seq![component.id], component.key_action(key), component.key_opaque)
            },
            ComponentTreeNode::Branch { children, focused, handler, .. } => {
                match handler {
                    Some(h) => {
                        if h.key_opaque {
                            (seq![h.id], h.key_action(key), true)
                        } else if focused < children@.len() {
                            let sub = children@[focused as int].spec_route_key(key);
                            if sub.2 {
                                sub
                            } else {
                                (seq![h.id] + sub.0, sub.1, false)
                            }
                        } else {
                            (seq![h.id], Action::Noop, false)
                        }
                    },
                    None => {
                        if focused < children@.len() {
                            children@[focused as int].spec_route_key(key)
                        } else {
                            (Seq::<ComponentId>::empty(), Action::Noop, false)
                        }
                    },
                }
            },
        }
    }

    /// An empty branch: no children, no constraints, no handler. It
    /// renders nothing and accepts no focus.
    pub fn new() -> (r: ComponentTreeNode)
        ensures
            r.wf(),
            r matches ComponentTreeNode::Branch {
                children,
                direction,
                constraints,
                focused,
                handler,
            } && children@.len() == 0 && constraints@.len() == 0 && focused == 0 && handler
                is None && direction is Horizontal,
            !r.has_focus(),
    {
        ComponentTreeNode::Branch {
            children: Vec::new(),
            direction: Orientation::Horizontal,
            constraints: Vec::new(),
            focused: 0,
            handler: None,
        }
    }

    /// A leaf holding one component.
    pub fn new_leaf(component: Component) -> (r: ComponentTreeNode)
        ensures
            r matches ComponentTreeNode::Leaf { component: c } && c == component,
            component.wf() ==> r.wf(),
            r.has_focus(),
    {
        ComponentTreeNode::Leaf { component }
    }

    /// A branch over the given children. Construction fails fast when the
    /// constraint count does not match the child count, or when a
    /// non-empty branch does not focus an existing child.
    pub fn new_branch(
        children: Vec<ComponentTreeNode>,
        direction: Orientation,
        constraints: Vec<Constraint>,
        focused: usize,
    ) -> (r: Result<ComponentTreeNode, TreeError>)
        requires
            forall|i: int| 0 <= i < children@.len() ==> (#[trigger] children@[i]).wf(),
        ensures
            constraints@.len() != children@.len() ==> r == Result::<
                ComponentTreeNode,
                TreeError,
            >::Err(TreeError::ConstraintMismatch),
            constraints@.len() == children@.len() && children@.len() > 0 && focused
                >= children@.len() ==> r == Result::<ComponentTreeNode, TreeError>::Err(
                TreeError::FocusOutOfRange,
            ),
            constraints@.len() == children@.len() && children@.len() == 0 && focused != 0 ==> r
                == Result::<ComponentTreeNode, TreeError>::Err(TreeError::FocusOutOfRange),
            r matches Ok(n) ==> ({
                &&& n.wf()
                &&& n matches ComponentTreeNode::Branch {
                    children: c,
                    direction: d,
                    constraints: k,
                    focused: f,
                    handler,
                } && c@ == children@ && d == direction && k@ == constraints@ && f == focused
                    && handler is None
            }),
            r is Ok <==> constraints@.len() == children@.len() && ((children@.len() == 0 && focused
                == 0) || focused < children@.len()),
    {
        if constraints.len() != children.len() {
            return Err(TreeError::ConstraintMismatch);
        }
        if children.len() == 0 && focused != 0 {
            return Err(TreeError::FocusOutOfRange);
        }
        if children.len() > 0 && focused >= children.len() {
            return Err(TreeError::FocusOutOfRange);
        }
        Ok(ComponentTreeNode::Branch { children, direction, constraints, focused, handler: None })
    }

    /// Installs the branch's own event handler. On a leaf this does
    /// nothing.
    pub fn set_handler(&mut self, h: Component)
        requires
            old(self).wf(),
            h.wf(),
        ensures
            final(self).wf(),
            *old(self) matches ComponentTreeNode::Branch { children, direction, constraints, focused, .. }
                ==> ({
                &&& *final(self) matches ComponentTreeNode::Branch {
                    children: c2,
                    direction: d2,
                    constraints: k2,
                    focused: f2,
                    handler: h2,
                } && c2@ == children@ && d2 == direction && k2@ == constraints@ && f2 == focused
                    && h2 == Some(h)
            }),
            *old(self) is Leaf ==> *final(self) == *old(self),
    {
        match self {
            ComponentTreeNode::Branch { handler, .. } => {
                *handler = Some(h);
            },
            ComponentTreeNode::Leaf { .. } => {},
        }
    }

    /// Appends a child with its size constraint. On a leaf this does
    /// nothing; turn the leaf into a branch first.
    pub fn extend(&mut self, other: ComponentTreeNode, constraint: Constraint)
        requires
            old(self).wf(),
            other.wf(),
        ensures
            final(self).wf(),
            *old(self) matches ComponentTreeNode::Branch { children, direction, constraints, focused, handler }
                ==> ({
                &&& *final(self) matches ComponentTreeNode::Branch {
                    children: c2,
                    direction: d2,
                    constraints: k2,
                    focused: f2,
                    handler: h2,
                } && c2@ == children@.push(other) && d2 == direction && k2@ == constraints@.push(
                    constraint,
                ) && f2 == focused && h2 == handler
            }),
            *old(self) is Leaf ==> *final(self) == *old(self),
    {
        let ghost prev = *self;
        match self {
            ComponentTreeNode::Branch { children, constraints, .. } => {
                children.push(other);
                constraints.push(constraint);
            },
            ComponentTreeNode::Leaf { .. } => {},
        }
        proof {
            if *self is Branch {
                let c2 = (*self)->Branch_children;
                let c1 = prev->Branch_children;
                assert(c2@ == c1@.push(other));
                assert forall|i: int| 0 <= i < c2@.len() implies (#[trigger] c2@[i]).wf() by {
                    if i < c2@.len() - 1 {
                        assert(c2@[i] == c1@[i]);
                    }
                }
            }
        }
    }

    /// Wraps this node in a branch of one flexible child, focused on it.
    pub fn leaf_to_branch(self) -> (r: ComponentTreeNode)
        requires
            self.wf(),
        ensures
            r.wf(),
            r matches ComponentTreeNode::Branch { children, constraints, focused, handler, .. }
                && children@ == seq![self] && constraints@ == seq![Constraint::Flexible]
                && focused == 0 && handler is None,
    {
        let mut children: Vec<ComponentTreeNode> = Vec::new();
        children.push(self);
        let mut constraints: Vec<Constraint> = Vec::new();
        constraints.push(Constraint::Flexible);
        ComponentTreeNode::Branch {
            children,
            direction: Orientation::Horizontal,
            constraints,
            focused: 0,
            handler: None,
        }
    }

    /// The children of a branch; a leaf has none.
    pub fn get_children(&self) -> (r: Option<&Vec<ComponentTreeNode>>)
        ensures
            match r {
                Some(c) => self matches ComponentTreeNode::Branch { children, .. } && c@
                    == children@,
                None => self is Leaf,
            },
    {
        match self {
            ComponentTreeNode::Branch { children, .. } => Some(children),
            ComponentTreeNode::Leaf { .. } => None,
        }
    }

    /// The focused leaf's component: `Some` exactly when following the
    /// `focused` indices reaches a leaf, and `None` on an empty branch or
    /// one whose focus points past its children.
    pub fn get_focused(&self) -> (r: Option<&Component>)
        ensures
            match r {
                Some(c) => self.has_focus() && self.spec_focused() == Some(*c),
                None => !self.has_focus(),
            },
        decreases *self,
    {
        match self {
            ComponentTreeNode::Leaf { component } => Some(component),
            ComponentTreeNode::Branch { children, focused, .. } => {
                if *focused < children.len() {
                    children[*focused].get_focused()
                } else {
                    None
                }
            },
        }
    }

    /// Whether some node on the focus path consumes key events outright.
    pub fn key_event_opaque(&self) -> (r: bool)
        ensures
            r == self.path_key_opaque(),
        decreases *self,
    {
        match self {
            ComponentTreeNode::Leaf { component } => component.key_event_opaque(),
            ComponentTreeNode::Branch { children, focused, handler, .. } => {
                let from_handler = match handler {
                    Some(h) => h.key_event_opaque(),
                    None => false,
                };
                if from_handler {
                    true
                } else if *focused < children.len() {
                    proof {
                        broadcast use vstd::std_specs::vec::group_vec_axioms;

                        assert(decreases_to!(*self => *children));
                        assert(decreases_to!(*children => children[*focused as int]));
                    }
                    children[*focused].key_event_opaque()
                } else {
                    false
                }
            },
        }
    }

    /// Routes one key event along the focus path, per the routing policy.
    pub fn route_key_event(&self, key: KeyEvent) -> (r: KeyRouting)
        requires
            self.wf(),
        ensures
            r.delivered@ == self.spec_route_key(key).0,
            r.action == self.spec_route_key(key).1,
            r.consumed == self.spec_route_key(key).2,
        decreases *self,
    {
        match self {
            ComponentTreeNode::Leaf { component } => {
                let mut delivered: Vec<ComponentId> = Vec::new();
                delivered.push(component.id);
                proof {
                    assert(delivered@ =~= seq![component.id]);
                }
                KeyRouting {
                    delivered,
                    action: component.handle_key_event(key),
                    consumed: component.key_event_opaque(),
                }
            },
            ComponentTreeNode::Branch { children, focused, handler, .. } => {
                match handler {
                    Some(h) if h.key_event_opaque() => {
                        let mut delivered: Vec<ComponentId> = Vec::new();
                        delivered.push(h.id);
                        proof {
                            assert(delivered@ =~= seq![h.id]);
                        }
                        KeyRouting { delivered, action: h.handle_key_event(key), consumed: true }
                    },
                    _ => {
                        if *focused < children.len() {
                            let sub = children[*focused].route_key_event(key);
                            if sub.consumed {
                                sub
                            } else {
                                match handler {
                                    Some(h) => {
                                        let mut delivered: Vec<ComponentId> = Vec::new();
                                        delivered.push(h.id);
                                        let mut i: usize = 0;
                                        while i < sub.delivered.len()
                                            invariant
                                                0 <= i <= sub.delivered@.len(),
                                                delivered@ =~= seq![h.id] + sub.delivered@.take(
                                                    i as int,
                                                ),
                                            decreases sub.delivered@.len() - i,
                                        {
                                            delivered.push(sub.delivered[i]);
                                            proof {
                                                assert(sub.delivered@.take(i as int + 1)
                                                    =~= sub.delivered@.take(i as int).push(
                                                    sub.delivered@[i as int],
                                                ));
                                            }
                                            i = i + 1;
                                        }
                                        proof {
                                            assert(sub.delivered@.take(
                                                sub.delivered@.len() as int,
                                            ) =~= sub.delivered@);
                                        }
                                        KeyRouting {
                                            delivered,
                                            action: sub.action,
                                            consumed: false,
                                        }
                                    },
                                    None => sub,
                                }
                            }
                        } else {
                            match handler {
                                Some(h) => {
                                    let mut delivered: Vec<ComponentId> = Vec::new();
                                    delivered.push(h.id);
                                    proof {
                                        assert(delivered@ =~= seq![h.id]);
                                    }
                                    KeyRouting {
                                        delivered,
                                        action: Action::Noop,
                                        consumed: false,
                                    }
                                },
                                None => {
                                    let delivered: Vec<ComponentId> = Vec::new();
                                    proof {
                                        assert(delivered@ =~= Seq::<ComponentId>::empty());
                                    }
                                    KeyRouting {
                                        delivered,
                                        action: Action::Noop,
                                        consumed: false,
                                    }
                                },
                            }
                        }
                    },
                }
            },
        }
    }

    /// Renders this node into `rect`: a leaf draws its component, a branch
    /// partitions `rect` per its constraints and recurses. Cells outside
    /// `rect` are never touched.
    #[verifier::loop_isolation(false)]
    pub fn render(&self, buf: &mut CharBuffer, rect: Rect)
        requires
            self.wf(),
            old(buf).wf(),
            rect.wf(),
            rect_in_buffer(rect, *old(buf)),
        ensures
            final(buf).wf(),
            final(buf).spec_width() == old(buf).spec_width(),
            final(buf).spec_height() == old(buf).spec_height(),
            forall|x: int, y: int|
                0 <= x < old(buf).spec_width() && 0 <= y < old(buf).spec_height() && !in_rect(
                    rect,
                    x,
                    y,
                ) ==> final(buf).at(x, y) == old(buf).at(x, y),
            forall|x: int, y: int|
                in_rect(rect, x, y) ==> final(buf).at(x, y) == match node_paints(
                    *self,
                    rect,
                    x,
                    y,
                ) {
                    Some(c) => c,
                    None => old(buf).at(x, y),
                },
        decreases *self,
    {
        match self {
            ComponentTreeNode::Leaf { component } => {
                component.render(buf, rect);
            },
            ComponentTreeNode::Branch { children, direction, constraints, .. } => {
                if children.len() == 0 {
                    return ;
                }
                let rects = split_rect(rect, *direction, constraints);
                let mut i: usize = 0;
                while i < children.len()
                    invariant
                        forall|m: int|
                            0 <= m < children@.len() ==> (#[trigger] children@[m]).wf(),
                        rects@.len() == children@.len(),
                        forall|m: int|
                            0 <= m < rects@.len() ==> (#[trigger] rects@[m]).wf() && rect_contains(
                                rect,
                                rects@[m],
                            ),
                        buf.wf(),
                        rect.wf(),
                        rect_in_buffer(rect, *old(buf)),
                        buf.spec_width() == old(buf).spec_width(),
                        buf.spec_height() == old(buf).spec_height(),
                        0 <= i <= children@.len(),
                        forall|m: int|
                            0 <= m < rects@.len() ==> (#[trigger] rects@[m]) == child_rect(
                                rect,
                                *direction,
                                constraints@,
                                m,
                            ),
                        forall|x: int, y: int|
                            0 <= x < old(buf).spec_width() && 0 <= y < old(buf).spec_height()
                                && !in_rect(rect, x, y) ==> buf.at(x, y) == old(buf).at(x, y),
                        forall|x: int, y: int|
                            in_rect(rect, x, y) ==> buf.at(x, y) == match children_paint(
                                children@,
                                rect,
                                *direction,
                                constraints@,
                                i as int,
                                x,
                                y,
                            ) {
                                Some(c) => c,
                                None => old(buf).at(x, y),
                            },
                    decreases children@.len() - i,
                {
                    proof {
                        broadcast use vstd::std_specs::vec::group_vec_axioms;
                        assert(decreases_to!(*self => *children));
                        assert(decreases_to!(*children => children[i as int]));
                    }
                    let ghost before = *buf;
                    children[i].render(buf, rects[i]);
                    proof {
                        assert forall|x: int, y: int|
                            0 <= x < old(buf).spec_width() && 0 <= y < old(buf).spec_height()
                                && !in_rect(rect, x, y) implies buf.at(x, y) == old(buf).at(
                            x,
                            y,
                        ) by {
                            assert(rect_contains(rect, rects@[i as int]));
                            assert(!in_rect(rects@[i as int], x, y));
                        }
                        assert forall|x: int, y: int| in_rect(rect, x, y) implies buf.at(x, y)
                            == match children_paint(
                            children@,
                            rect,
                            *direction,
                            constraints@,
                            i as int + 1,
                            x,
                            y,
                        ) {
                            Some(c) => c,
                            None => old(buf).at(x, y),
                        } by {
                            let r_i = child_rect(rect, *direction, constraints@, i as int);
                            assert(rects@[i as int] == r_i);
                            if in_rect(r_i, x, y) {
                                lemma_children_paint_disjoint(
                                    children@,
                                    rect,
                                    *direction,
                                    constraints@,
                                    i as int,
                                    i as int,
                                    x,
                                    y,
                                );
                                assert(before.at(x, y) == old(buf).at(x, y));
                                assert(buf.at(x, y) == match node_paints(
                                    children@[i as int],
                                    r_i,
                                    x,
                                    y,
                                ) {
                                    Some(c) => c,
                                    None => before.at(x, y),
                                });
                            } else {
                                assert(buf.at(x, y) == before.at(x, y));
                            }
                        }
                    }
                    i = i + 1;
                }
            },
        }
    }

    /// The follow-up action that dispatching yields: the pending action of
    /// the first node on the focus path that holds one.
    pub open spec fn spec_dispatch_result(self) -> Option<Action>
        decreases self,
    {
        match self {
            ComponentTreeNode::Leaf { component } => component.pending,
            ComponentTreeNode::Branch { children, focused, handler, .. } => {
                let from_children = if focused < children@.len() {
                    children@[focused as int].spec_dispatch_result()
                } else {
                    Option::<Action>::None
                };
                match handler {
                    Some(h) => if h.pending is Some {
                        h.pending
                    } else {
                        from_children
                    },
                    None => from_children,
                }
            },
        }
    }

    /// Dispatches an action along the full root-to-focused-leaf path,
    /// branch handlers first, stopping at the first node that returns a
    /// follow-up action; that follow-up is handed back for re-injection.
    pub fn dispatch_action(&mut self, action: Action) -> (r: Option<Action>)
        requires
            old(self).wf(),
        ensures
            final(self).wf(),
            dispatch_rel(*old(self), *final(self), action, r),
            r == old(self).spec_dispatch_result(),
        decreases *old(self),
    {
        match self {
            ComponentTreeNode::Leaf { component } => component.dispatch(action),
            ComponentTreeNode::Branch { children, focused, handler, .. } => {
                match handler {
                    Some(h) => {
                        let hr = h.dispatch(action);
                        if hr.is_some() {
                            return hr;
                        }
                    },
                    None => {},
                }
                if *focused < children.len() {
                    proof {
                        broadcast use vstd::std_specs::vec::group_vec_axioms;

                        assert(decreases_to!(*old(self) => old(self)->Branch_children));
                        assert(decreases_to!(
                            old(self)->Branch_children => old(self)->Branch_children[*focused as int]
                        ));
                    }
                    let child = &mut children[*focused];
                    let r = child.dispatch_action(action);
                    proof {
                        assert forall|i: int|
                            0 <= i < children@.len() implies (#[trigger] children@[i]).wf() by {};
                    }
                    r
                } else {
                    None
                }
            },
        }
    }
}

/// The cell a tree paints at `(x, y)` inside `rect`, or `None` if it
/// leaves the cell as it was: a leaf paints what its component draws; a
/// branch grants each child its sub-rectangle and paints each cell through
/// the child whose sub-rectangle holds it; an empty branch paints nothing.
pub open spec fn node_paints(n: ComponentTreeNode, rect: Rect, x: int, y: int) -> Option<Cell>
    decreases n, 0int,
{
    match n {
        ComponentTreeNode::Leaf { component } => component.kind.paints(rect, x, y),
        ComponentTreeNode::Branch { children, direction, constraints, .. } => children_paint(
            children@,
            rect,
            direction,
            constraints@,
            children@.len() as int,
            x,
            y,
        ),
    }
}

/// What the first `upto` children of a branch paint at `(x, y)`: the paint
/// of the child whose sub-rectangle holds the cell, since the
/// sub-rectangles never overlap.
pub open spec fn children_paint(
    children: Seq<ComponentTreeNode>,
    rect: Rect,
    direction: Orientation,
    cs: Seq<Constraint>,
    upto: int,
    x: int,
    y: int,
) -> Option<Cell>
    decreases children, upto,
    via children_paint_decreases
{
    if upto <= 0 || upto > children.len() {
        None
    } else {
        let r = child_rect(rect, direction, cs, upto - 1);
        if in_rect(r, x, y) {
            match node_paints(children[upto - 1], r, x, y) {
                Some(c) => Some(c),
                None => children_paint(children, rect, direction, cs, upto - 1, x, y),
            }
        } else {
            children_paint(children, rect, direction, cs, upto - 1, x, y)
        }
    }
}

#[via_fn]
proof fn children_paint_decreases(
    children: Seq<ComponentTreeNode>,
    rect: Rect,
    direction: Orientation,
    cs: Seq<Constraint>,
    upto: int,
    x: int,
    y: int,
) {
    broadcast use vstd::seq::axiom_seq_index_decreases;

    if 0 < upto <= children.len() {
        assert(decreases_to!(children => children[upto - 1]));
    }
}

/// Two distinct children of one branch are granted sub-rectangles with no
/// cell in common.
pub proof fn lemma_child_rects_disjoint(
    rect: Rect,
    direction: Orientation,
    cs: Seq<Constraint>,
    i: int,
    j: int,
    x: int,
    y: int,
)
    requires
        rect.wf(),
        0 <= i < j < cs.len(),
    ensures
        !(in_rect(child_rect(rect, direction, cs, i), x, y) && in_rect(
            child_rect(rect, direction, cs, j),
            x,
            y,
        )),
{
    let extent = match direction {
        Orientation::Horizontal => rect.spec_width(),
        Orientation::Vertical => rect.spec_height(),
    };
    lemma_granted_bounds(cs, extent, i);
    lemma_granted_bounds(cs, extent, i + 1);
    lemma_granted_bounds(cs, extent, j);
    lemma_granted_bounds(cs, extent, j + 1);
    lemma_granted_monotone(cs, extent, i + 1, j);
}

/// A cell inside the sub-rectangle of a child at or past `upto` is painted
/// by none of the first `upto` children.
proof fn lemma_children_paint_disjoint(
    children: Seq<ComponentTreeNode>,
    rect: Rect,
    direction: Orientation,
    cs: Seq<Constraint>,
    upto: int,
    j: int,
    x: int,
    y: int,
)
    requires
        rect.wf(),
        0 <= upto <= j < cs.len(),
        in_rect(child_rect(rect, direction, cs, j), x, y),
    ensures
        children_paint(children, rect, direction, cs, upto, x, y) is None,
    decreases upto,
{
    if upto > 0 {
        lemma_child_rects_disjoint(rect, direction, cs, upto - 1, j, x, y);
        lemma_children_paint_disjoint(children, rect, direction, cs, upto - 1, j, x, y);
    }
}

/// The focus path reaches a leaf exactly when there is a focused
/// component.
pub proof fn lemma_focus_iff_some(n: ComponentTreeNode)
    ensures
        n.has_focus() <==> n.spec_focused() is Some,
    decreases n,
{
    if n is Branch {
        let children = n->Branch_children;
        let focused = n->Branch_focused;
        if focused < children@.len() {
            lemma_focus_iff_some(children@[focused as int]);
        }
    }
}

/// One rectangle contains another.
pub open spec fn rect_contains(outer: Rect, inner: Rect) -> bool {
    &&& outer.corner1.x <= inner.corner1.x
    &&& inner.corner2.x <= outer.corner2.x
    &&& outer.corner1.y <= inner.corner1.y
    &&& inner.corner2.y <= outer.corner2.y
}

/// How dispatching an action transforms a tree and what follow-up action it
/// yields: the action is delivered along the full root-to-focused-leaf path
/// (branch handlers first), short-circuiting at the first node that returns
/// a follow-up; everything off the path is untouched.
pub open spec fn dispatch_rel(
    pre: ComponentTreeNode,
    post: ComponentTreeNode,
    action: Action,
    r: Option<Action>,
) -> bool
    decreases pre,
{
    match pre {
        ComponentTreeNode::Leaf { component } => {
            &&& post matches ComponentTreeNode::Leaf { component: c2 } && c2
                == component.after_dispatch(action).0
            &&& r == component.after_dispatch(action).1
        },
        ComponentTreeNode::Branch { children, direction, constraints, focused, handler } => {
            &&& post matches ComponentTreeNode::Branch {
                children: pc,
                direction: pd,
                constraints: pk,
                focused: pf,
                handler: ph,
            } && pd == direction && pk@ == constraints@ && pf == focused && ({
                match handler {
                    Some(h) => {
                        let h2 = h.after_dispatch(action).0;
                        let hr = h.after_dispatch(action).1;
                        &&& ph == Some(h2)
                        &&& if hr is Some {
                            pc@ == children@ && r == hr
                        } else if focused < children@.len() {
                            &&& pc@.len() == children@.len()
                            &&& forall|j: int|
                                0 <= j < children@.len() && j != focused ==> pc@[j] == (
                                #[trigger] children@[j])
                            &&& dispatch_rel(children@[focused as int], pc@[focused as int], action, r)
                        } else {
                            pc@ == children@ && r is None
                        }
                    },
                    None => {
                        &&& ph is None
                        &&& if focused < children@.len() {
                            &&& pc@.len() == children@.len()
                            &&& forall|j: int|
                                0 <= j < children@.len() && j != focused ==> pc@[j] == (
                                #[trigger] children@[j])
                            &&& dispatch_rel(children@[focused as int], pc@[focused as int], action, r)
                        } else {
                            pc@ == children@ && r is None
                        }
                    },
                }
            })
        },
    }
}

} // verus!
