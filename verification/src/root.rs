//! Layers and the root that composes them.
//!
//! A tiled layer occupies the whole drawing area and partitions it through
//! its component tree; a floating layer occupies an explicit sub-rectangle,
//! drawn after all tiled layers and clipped to the screen, and takes no part
//! in layout-constraint solving. Later layers draw over earlier ones.

use vstd::prelude::*;

use crate::action::Action;
use crate::charbuf::CharBuffer;
use crate::charbuf::Cell;
use crate::component::{full_rect, in_rect, Component};
use crate::event::{KeyEvent, MouseEvent};
use crate::geometry::{Position, Rect};
use crate::identifier::ComponentId;
use crate::layout::Constraint;
use crate::tree::{dispatch_rel, node_paints, ComponentTreeNode, KeyRouting};

verus! {

/// Relies on `core::mem::replace`: moves `src` into `dest` and returns the
/// value `dest` held before.
pub assume_specification<T>[ core::mem::replace ](dest: &mut T, src: T) -> (r: T)
    ensures
        *final(dest) == src,
        r == *old(dest),
;

/// One drawing layer: either a component tree tiling the whole area, or a
/// single component floating over an explicit rectangle.
#[derive(Debug)]
pub enum Layer {
    Tiled(ComponentTreeNode),
    Floating(Component, Rect),
}

/// Clips a rectangle to a grid of the given extent.
pub open spec fn spec_clip_rect(r: Rect, width: int, height: int) -> Rect {
    Rect {
        corner1: Position {
            x: if r.corner1.x <= width {
                r.corner1.x
            } else {
                width as usize
            },
            y: if r.corner1.y <= height {
                r.corner1.y
            } else {
                height as usize
            },
        },
        corner2: Position {
            x: if r.corner2.x <= width {
                r.corner2.x
            } else {
                width as usize
            },
            y: if r.corner2.y <= height {
                r.corner2.y
            } else {
                height as usize
            },
        },
    }
}

/// Clips a rectangle to a grid of the given extent.
pub fn clip_rect(r: Rect, width: usize, height: usize) -> (c: Rect)
    requires
        r.wf(),
    ensures
        c == spec_clip_rect(r, width as int, height as int),
        c.wf(),
        c.corner2.x <= width,
        c.corner2.y <= height,
{
    Rect {
        corner1: Position {
            x: if r.corner1.x <= width {
                r.corner1.x
            } else {
                width
            },
            y: if r.corner1.y <= height {
                r.corner1.y
            } else {
                height
            },
        },
        corner2: Position {
            x: if r.corner2.x <= width {
                r.corner2.x
            } else {
                width
            },
            y: if r.corner2.y <= height {
                r.corner2.y
            } else {
                height
            },
        },
    }
}

/// The cell one layer paints on a grid of the given extent, or `None` if
/// it leaves the cell as it was: a tiled layer paints through its tree
/// over the whole grid; a floating layer paints only inside its own
/// rectangle, clipped to the grid.
pub open spec fn layer_paints(l: Layer, width: int, height: int, x: int, y: int) -> Option<Cell> {
    match l {
        Layer::Tiled(n) => node_paints(n, full_rect(width, height), x, y),
        Layer::Floating(c, r) => {
            let clipped = spec_clip_rect(r, width, height);
            if in_rect(clipped, x, y) {
                c.kind.paints(clipped, x, y)
            } else {
                None
            }
        },
    }
}

/// The cell painted by the last layer among the first `upto` that belongs
/// to the given pass (tiled or floating) and paints the cell; later layers
/// draw over earlier ones.
pub open spec fn pass_paints(
    ls: Seq<Layer>,
    tiled: bool,
    width: int,
    height: int,
    upto: int,
    x: int,
    y: int,
) -> Option<Cell>
    decreases upto,
{
    if upto <= 0 || upto > ls.len() {
        None
    } else if (ls[upto - 1] is Tiled) == tiled && layer_paints(ls[upto - 1], width, height, x, y)
        is Some {
        layer_paints(ls[upto - 1], width, height, x, y)
    } else {
        pass_paints(ls, tiled, width, height, upto - 1, x, y)
    }
}

/// The cell the root paints on a grid of the given extent: the tiled
/// layers draw first, in order, then the floating layers draw over them.
pub open spec fn root_paints(ls: Seq<Layer>, width: int, height: int, x: int, y: int) -> Option<
    Cell,
> {
    match pass_paints(ls, false, width, height, ls.len() as int, x, y) {
        Some(c) => Some(c),
        None => pass_paints(ls, true, width, height, ls.len() as int, x, y),
    }
}

impl Layer {
    /// A layer is well formed when its tree or component is, and a floating
    /// rectangle has ordered corners.
    pub open spec fn wf(self) -> bool {
        match self {
            Layer::Tiled(node) => node.wf(),
            Layer::Floating(component, rect) => component.wf() && rect.wf(),
        }
    }

    /// Whether some node on this layer's focus path is opaque to key
    /// events.
    pub open spec fn path_key_opaque(self) -> bool {
        match self {
            Layer::Tiled(node) => node.path_key_opaque(),
            Layer::Floating(component, _) => component.key_opaque,
        }
    }

    /// What routing a key event through this layer produces.
    pub open spec fn spec_route_key(self, key: KeyEvent) -> (Seq<ComponentId>, Action, bool) {
        match self {
            Layer::Tiled(node) => node.spec_route_key(key),
            Layer::Floating(component, _) => (
                seq![component.id],
                component.key_action(key),
                component.key_opaque,
            ),
        }
    }

    /// The follow-up action that dispatching through this layer yields.
    pub open spec fn spec_dispatch_result(self) -> Option<Action> {
        match self {
            Layer::Tiled(node) => node.spec_dispatch_result(),
            Layer::Floating(component, _) => component.pending,
        }
    }

    /// A tiling layer over one component.
    pub fn new_tiled(component: Component) -> (r: Layer)
        ensures
            r matches Layer::Tiled(n) && n matches ComponentTreeNode::Leaf { component: c } && c
                == component,
            component.wf() ==> r.wf(),
    {
        Layer::Tiled(ComponentTreeNode::new_leaf(component))
    }

    /// A floating layer over the given rectangle.
    pub fn new_floating(component: Component, rect: Rect) -> (r: Layer)
        ensures
            r == Layer::Floating(component, rect),
            component.wf() && rect.wf() ==> r.wf(),
    {
        Layer::Floating(component, rect)
    }

    /// Adds a component beside this layer's existing content: a tiled
    /// leaf becomes a branch of two flexible children, a tiled branch
    /// gains one more flexible child, and a floating layer replaces its
    /// component.
    pub fn add_component(&mut self, c: Component)
        requires
            old(self).wf(),
            c.wf(),
        ensures
            final(self).wf(),
            *old(self) is Floating ==> *final(self) == Layer::Floating(
                c,
                (*old(self))->Floating_1,
            ),
            *old(self) is Tiled && (*old(self))->Tiled_0 is Leaf ==> ({
                let n0 = (*old(self))->Tiled_0;
                &&& *final(self) matches Layer::Tiled(n2)
                &&& n2 matches ComponentTreeNode::Branch {
                    children: c2,
                    constraints: k2,
                    focused,
                    handler,
                    ..
                } && c2@.len() == 2 && c2@[0] == n0 && (c2@[1] matches ComponentTreeNode::Leaf {
                    component: added,
                } && added == c) && k2@ == seq![Constraint::Flexible, Constraint::Flexible]
                    && focused == 0 && handler is None
            }),
            *old(self) is Tiled && (*old(self))->Tiled_0 is Branch ==> ({
                let n0 = (*old(self))->Tiled_0;
                &&& *final(self) matches Layer::Tiled(n2)
                &&& n2 matches ComponentTreeNode::Branch {
                    children: c2,
                    direction: d2,
                    constraints: k2,
                    focused: f2,
                    handler: h2,
                } && c2@.len() == n0->Branch_children@.len() + 1 && (forall|j: int|
                    0 <= j < n0->Branch_children@.len() ==> c2@[j] == n0->Branch_children@[j])
                    && (c2@.last() matches ComponentTreeNode::Leaf { component: added } && added
                    == c) && k2@ == n0->Branch_constraints@.push(Constraint::Flexible) && d2
                    == n0->Branch_direction && f2 == n0->Branch_focused && h2
                    == n0->Branch_handler
            }),
    {
        match self {
            Layer::Tiled(node) => {
                if node.get_children().is_none() {
                    let prev = core::mem::replace(node, ComponentTreeNode::new());
                    let mut branch = prev.leaf_to_branch();
                    branch.extend(ComponentTreeNode::new_leaf(c), Constraint::Flexible);
                    *node = branch;
                } else {
                    node.extend(ComponentTreeNode::new_leaf(c), Constraint::Flexible);
                }
            },
            Layer::Floating(component, _) => {
                *component = c;
            },
        }
    }

    /// Adds a component beside this layer's existing content, by value.
    pub fn with_component(self, c: Component) -> (r: Layer)
        requires
            self.wf(),
            c.wf(),
        ensures
            r.wf(),
    {
        let mut this = self;
        this.add_component(c);
        this
    }

    /// Whether this layer consumes key events outright.
    pub fn key_event_opaque(&self) -> (r: bool)
        requires
            self.wf(),
        ensures
            r == self.path_key_opaque(),
    {
        match self {
            Layer::Tiled(node) => node.key_event_opaque(),
            Layer::Floating(component, _) => component.key_event_opaque(),
        }
    }

    /// Whether this layer participates in tiling.
    pub fn is_tiled(&self) -> (r: bool)
        ensures
            r == (self is Tiled),
    {
        match self {
            Layer::Tiled(_) => true,
            Layer::Floating(_, _) => false,
        }
    }

    /// Routes one key event through this layer.
    pub fn route_key_event(&self, key: KeyEvent) -> (r: KeyRouting)
        requires
            self.wf(),
        ensures
            r.delivered@ == self.spec_route_key(key).0,
            r.action == self.spec_route_key(key).1,
            r.consumed == self.spec_route_key(key).2,
    {
        match self {
            Layer::Tiled(node) => node.route_key_event(key),
            Layer::Floating(component, _) => {
                let mut delivered: Vec<ComponentId> = Vec::new();
                delivered.push(component.id);
                proof {
                    assert(delivered@ =~= seq![component.id]);
                }
                KeyRouting {
                    delivered,
                    action: component.handle_key_event(key),
                    consumed: component.key_event_opaque(),
                }
            },
        }
    }

    /// Dispatches an action through this layer.
    pub fn dispatch_action(&mut self, action: Action) -> (r: Option<Action>)
        requires
            old(self).wf(),
        ensures
            final(self).wf(),
            r == old(self).spec_dispatch_result(),
            *old(self) matches Layer::Tiled(n1) ==> (*final(self) matches Layer::Tiled(n2)
                && dispatch_rel(n1, n2, action, r)),
            *old(self) matches Layer::Floating(c1, r1) ==> (*final(self) matches Layer::Floating(
                c2,
                r2,
            ) && c2 == c1.after_dispatch(action).0 && r2 == r1),
    {
        match self {
            Layer::Tiled(node) => node.dispatch_action(action),
            Layer::Floating(component, _) => component.dispatch(action),
        }
    }

    /// The component that owns this layer's focus.
    pub open spec fn spec_focused(self) -> Option<Component> {
        match self {
            Layer::Tiled(n) => n.spec_focused(),
            Layer::Floating(c, _) => Some(c),
        }
    }

    /// The focused component of this layer.
    pub fn get_focused(&self) -> (r: Option<&Component>)
        ensures
            match r {
                Some(c) => self.spec_focused() == Some(*c),
                None => self.spec_focused() is None,
            },
    {
        match self {
            Layer::Tiled(node) => {
                proof {
                    crate::tree::lemma_focus_iff_some(*node);
                }
                node.get_focused()
            },
            Layer::Floating(component, _) => Some(component),
        }
    }

    /// Renders this layer: a tiled layer fills the whole grid through its
    /// tree, a floating layer draws its component clipped to its own
    /// rectangle, corrupting nothing outside it.
    pub fn render(&self, buf: &mut CharBuffer)
        requires
            self.wf(),
            old(buf).wf(),
        ensures
            final(buf).wf(),
            final(buf).spec_width() == old(buf).spec_width(),
            final(buf).spec_height() == old(buf).spec_height(),
            forall|x: int, y: int|
                0 <= x < old(buf).spec_width() && 0 <= y < old(buf).spec_height() ==> final(buf).at(x, y) == match layer_paints(
                    *self,
                    old(buf).spec_width(),
                    old(buf).spec_height(),
                    x,
                    y,
                ) {
                    Some(c) => c,
                    None => old(buf).at(x, y),
                },
            *self matches Layer::Floating(component, rect) ==> ({
                let clipped = spec_clip_rect(rect, old(buf).spec_width(), old(buf).spec_height());
                &&& forall|x: int, y: int|
                    0 <= x < old(buf).spec_width() && 0 <= y < old(buf).spec_height() && !in_rect(
                        clipped,
                        x,
                        y,
                    ) ==> final(buf).at(x, y) == old(buf).at(x, y)
                &&& forall|x: int, y: int|
                    in_rect(clipped, x, y) ==> final(buf).at(x, y) == match component.kind.paints(
                        clipped,
                        x,
                        y,
                    ) {
                        Some(c) => c,
                        None => old(buf).at(x, y),
                    }
            }),
    {
        match self {
            Layer::Tiled(node) => {
                let w = buf.width();
                let h = buf.height();
                let full = Rect {
                    corner1: Position { x: 0, y: 0 },
                    corner2: Position { x: w, y: h },
                };
                node.render(buf, full);
                proof {
                    assert(full == full_rect(old(buf).spec_width(), old(buf).spec_height()));
                    assert forall|x: int, y: int|
                        0 <= x < old(buf).spec_width() && 0 <= y < old(buf).spec_height()
                            implies buf.at(x, y) == match layer_paints(
                        *self,
                        old(buf).spec_width(),
                        old(buf).spec_height(),
                        x,
                        y,
                    ) {
                        Some(c) => c,
                        None => old(buf).at(x, y),
                    } by {
                        assert(in_rect(full, x, y));
                    }
                }
            },
            Layer::Floating(component, rect) => {
                let w = buf.width();
                let h = buf.height();
                let clipped = clip_rect(*rect, w, h);
                component.render(buf, clipped);
                proof {
                    assert forall|x: int, y: int|
                        0 <= x < old(buf).spec_width() && 0 <= y < old(buf).spec_height()
                            implies buf.at(x, y) == match layer_paints(
                        *self,
                        old(buf).spec_width(),
                        old(buf).spec_height(),
                        x,
                        y,
                    ) {
                        Some(c) => c,
                        None => old(buf).at(x, y),
                    } by {}
                }
            },
        }
    }
}

/// Whether dispatching from index `i` on changes or reads an entry below
/// `i` — it does not: the relation depends only on the entries from `i` on.
proof fn lemma_layers_rel_congruence(
    pre1: Seq<Layer>,
    pre2: Seq<Layer>,
    post: Seq<Layer>,
    action: Action,
    i: int,
    r: Option<Action>,
)
    requires
        pre1.len() == pre2.len(),
        forall|j: int| i <= j < pre1.len() ==> pre1[j] == pre2[j],
    ensures
        layers_dispatch_rel(pre1, post, action, i, r) == layers_dispatch_rel(
            pre2,
            post,
            action,
            i,
            r,
        ),
    decreases pre1.len() - i,
{
    if 0 <= i < pre1.len() {
        lemma_layers_rel_congruence(pre1, pre2, post, action, i + 1, r);
    }
}

/// The root of the UI: an ordered list of layers. Later layers draw over
/// earlier ones; a key event visits layers in order and stops at the first
/// layer that consumes it.
#[derive(Debug)]
pub struct Root {
    pub layers: Vec<Layer>,
}

/// What routing a key event through the layers from index `i` on produces:
/// every layer up to and including the first consuming one receives the
/// event; the consuming layer's action is returned, or `Noop` when no layer
/// consumes the event.
pub open spec fn spec_route_key_layers(
    ls: Seq<Layer>,
    key: KeyEvent,
    i: int,
) -> (Seq<ComponentId>, Action)
    decreases ls.len() - i,
{
    if i < 0 || i >= ls.len() {
        (Seq::<ComponentId>::empty(), Action::Noop)
    } else {
        let first = ls[i].spec_route_key(key);
        if first.2 {
            (first.0, first.1)
        } else {
            let rest = spec_route_key_layers(ls, key, i + 1);
            (first.0 + rest.0, rest.1)
        }
    }
}

/// How dispatching transforms the layers from index `i` on: layers are
/// visited in order, each receiving the action along its full focus path,
/// stopping after the first layer that yields a follow-up action.
pub open spec fn layers_dispatch_rel(
    pre: Seq<Layer>,
    post: Seq<Layer>,
    action: Action,
    i: int,
    r: Option<Action>,
) -> bool
    decreases pre.len() - i,
{
    if i < 0 || i >= pre.len() {
        &&& post.len() == pre.len()
        &&& forall|j: int| i <= j < pre.len() ==> post[j] == pre[j]
        &&& r is None
    } else {
        &&& post.len() == pre.len()
        &&& layer_step_rel(pre[i], post[i], action)
        &&& if pre[i].spec_dispatch_result() is Some {
            r == pre[i].spec_dispatch_result() && forall|j: int|
                i < j < pre.len() ==> post[j] == pre[j]
        } else {
            layers_dispatch_rel(pre, post, action, i + 1, r)
        }
    }
}

/// The component that owns keyboard focus among the layers from index `i`
/// on: the focused component of the first layer that consumes key events,
/// or, when none does, of the first layer overall.
pub open spec fn spec_focused_layers(ls: Seq<Layer>, i: int) -> Option<Component>
    decreases ls.len() - i,
{
    if i < 0 || i >= ls.len() {
        if ls.len() > 0 {
            ls[0].spec_focused()
        } else {
            None
        }
    } else if ls[i].path_key_opaque() {
        ls[i].spec_focused()
    } else {
        spec_focused_layers(ls, i + 1)
    }
}

/// How dispatching one action transforms one layer.
pub open spec fn layer_step_rel(pre: Layer, post: Layer, action: Action) -> bool {
    match pre {
        Layer::Tiled(n1) => post matches Layer::Tiled(n2) && dispatch_rel(
            n1,
            n2,
            action,
            n1.spec_dispatch_result(),
        ),
        Layer::Floating(c1, r1) => post == Layer::Floating(c1.after_dispatch(action).0, r1),
    }
}

impl Root {
    /// A root is well formed when all its layers are.
    pub open spec fn wf(self) -> bool {
        forall|i: int| 0 <= i < self.layers@.len() ==> (#[trigger] self.layers@[i]).wf()
    }

    /// A root with no layers.
    pub fn new() -> (r: Root)
        ensures
            r.wf(),
            r.layers@.len() == 0,
    {
        Root { layers: Vec::new() }
    }

    /// Appends a layer; later layers draw over earlier ones.
    pub fn add_layer(&mut self, layer: Layer)
        requires
            old(self).wf(),
            layer.wf(),
        ensures
            final(self).wf(),
            final(self).layers@ == old(self).layers@.push(layer),
    {
        self.layers.push(layer);
        proof {
            assert forall|i: int| 0 <= i < self.layers@.len() implies (
            #[trigger] self.layers@[i]).wf() by {
                if i < self.layers@.len() - 1 {
                    assert(self.layers@[i] == old(self).layers@[i]);
                }
            }
        }
    }

    /// Appends a tiling layer over the given component, by value.
    pub fn with_component(self, component: Component) -> (r: Root)
        requires
            self.wf(),
            component.wf(),
        ensures
            r.wf(),
            r.layers@.len() == self.layers@.len() + 1,
            forall|i: int| 0 <= i < self.layers@.len() ==> r.layers@[i] == self.layers@[i],
            r.layers@.last() matches Layer::Tiled(n) && n matches ComponentTreeNode::Leaf {
                component: c,
            } && c == component,
    {
        let mut this = self;
        let layer = Layer::new_tiled(component);
        this.add_layer(layer);
        this
    }

    /// Routes one key event through the layers: every layer up to and
    /// including the first consuming one receives it, and that layer's
    /// action is returned, or `Noop` when none consumes it.
    pub fn route_key_event(&self, key: KeyEvent) -> (r: KeyRouting)
        requires
            self.wf(),
        ensures
            r.delivered@ == spec_route_key_layers(self.layers@, key, 0).0,
            r.action == spec_route_key_layers(self.layers@, key, 0).1,
    {
        route_key_layers_from(&self.layers, key, 0)
    }

    /// Pure translation of a mouse event: the built-in components define
    /// no mouse bindings, so a mouse event never yields an action.
    pub fn handle_mouse_event(&self, mouse: MouseEvent) -> (r: Action)
        ensures
            r == Action::Noop,
    {
        let _ = mouse;
        Action::Noop
    }

    /// Dispatches an action through the layers in order, stopping after
    /// the first layer that yields a follow-up action.
    pub fn dispatch_action(&mut self, action: Action) -> (r: Option<Action>)
        requires
            old(self).wf(),
        ensures
            final(self).wf(),
            layers_dispatch_rel(old(self).layers@, final(self).layers@, action, 0, r),
    {
        dispatch_layers_from(&mut self.layers, action, 0)
    }

    /// The component that owns keyboard focus: the focused component of
    /// the first layer that consumes key events, or of the first layer
    /// when none does. `None` exactly when that layer's focus reaches no
    /// leaf, or there is no layer at all.
    pub fn get_focused(&self) -> (r: Option<&Component>)
        requires
            self.wf(),
        ensures
            match r {
                Some(c) => spec_focused_layers(self.layers@, 0) == Some(*c),
                None => spec_focused_layers(self.layers@, 0) is None,
            },
    {
        let mut i: usize = 0;
        while i < self.layers.len()
            invariant
                self.wf(),
                0 <= i <= self.layers@.len(),
                spec_focused_layers(self.layers@, 0) == spec_focused_layers(
                    self.layers@,
                    i as int,
                ),
                forall|j: int| 0 <= j < i ==> !(#[trigger] self.layers@[j]).path_key_opaque(),
            decreases self.layers@.len() - i,
        {
            if self.layers[i].key_event_opaque() {
                return self.layers[i].get_focused();
            }
            i = i + 1;
        }
        if self.layers.len() > 0 {
            self.layers[0].get_focused()
        } else {
            None
        }
    }

    /// Renders the layers in order: tiled layers first, each filling the
    /// whole grid through its tree, then floating layers, each clipped to
    /// its own rectangle. Every cell ends up showing what the last layer
    /// that paints it draws; a cell no layer paints is left untouched.
    pub fn render(&self, buf: &mut CharBuffer)
        requires
            self.wf(),
            old(buf).wf(),
        ensures
            final(buf).wf(),
            final(buf).spec_width() == old(buf).spec_width(),
            final(buf).spec_height() == old(buf).spec_height(),
            forall|x: int, y: int|
                0 <= x < old(buf).spec_width() && 0 <= y < old(buf).spec_height()
                    ==> final(buf).at(x, y) == match root_paints(
                    self.layers@,
                    old(buf).spec_width(),
                    old(buf).spec_height(),
                    x,
                    y,
                ) {
                    Some(c) => c,
                    None => old(buf).at(x, y),
                },
    {
        let ghost w = old(buf).spec_width();
        let ghost h = old(buf).spec_height();
        let mut i: usize = 0;
        while i < self.layers.len()
            invariant
                self.wf(),
                buf.wf(),
                w == old(buf).spec_width(),
                h == old(buf).spec_height(),
                buf.spec_width() == w,
                buf.spec_height() == h,
                0 <= i <= self.layers@.len(),
                forall|x: int, y: int|
                    0 <= x < w && 0 <= y < h ==> buf.at(x, y) == match pass_paints(
                        self.layers@,
                        true,
                        w,
                        h,
                        i as int,
                        x,
                        y,
                    ) {
                        Some(c) => c,
                        None => old(buf).at(x, y),
                    },
            decreases self.layers@.len() - i,
        {
            let ghost before = *buf;
            if self.layers[i].is_tiled() {
                self.layers[i].render(buf);
            }
            proof {
                assert forall|x: int, y: int| 0 <= x < w && 0 <= y < h implies buf.at(x, y)
                    == match pass_paints(self.layers@, true, w, h, i as int + 1, x, y) {
                    Some(c) => c,
                    None => old(buf).at(x, y),
                } by {
                    if !(self.layers@[i as int] is Tiled) {
                        assert(buf.at(x, y) == before.at(x, y));
                    }
                }
            }
            i = i + 1;
        }
        let mut j: usize = 0;
        while j < self.layers.len()
            invariant
                self.wf(),
                buf.wf(),
                w == old(buf).spec_width(),
                h == old(buf).spec_height(),
                buf.spec_width() == w,
                buf.spec_height() == h,
                0 <= j <= self.layers@.len(),
                forall|x: int, y: int|
                    0 <= x < w && 0 <= y < h ==> buf.at(x, y) == match pass_paints(
                        self.layers@,
                        false,
                        w,
                        h,
                        j as int,
                        x,
                        y,
                    ) {
                        Some(c) => c,
                        None => match pass_paints(
                            self.layers@,
                            true,
                            w,
                            h,
                            self.layers@.len() as int,
                            x,
                            y,
                        ) {
                            Some(c) => c,
                            None => old(buf).at(x, y),
                        },
                    },
            decreases self.layers@.len() - j,
        {
            let ghost before = *buf;
            if !self.layers[j].is_tiled() {
                self.layers[j].render(buf);
            }
            proof {
                assert forall|x: int, y: int| 0 <= x < w && 0 <= y < h implies buf.at(x, y)
                    == match pass_paints(self.layers@, false, w, h, j as int + 1, x, y) {
                    Some(c) => c,
                    None => match pass_paints(
                        self.layers@,
                        true,
                        w,
                        h,
                        self.layers@.len() as int,
                        x,
                        y,
                    ) {
                        Some(c) => c,
                        None => old(buf).at(x, y),
                    },
                } by {
                    if self.layers@[j as int] is Tiled {
                        assert(buf.at(x, y) == before.at(x, y));
                    }
                }
            }
            j = j + 1;
        }
    }
}

/// Routes a key event through the layers from index `i` on.
fn route_key_layers_from(layers: &Vec<Layer>, key: KeyEvent, i: usize) -> (r: KeyRouting)
    requires
        forall|j: int| 0 <= j < layers@.len() ==> (#[trigger] layers@[j]).wf(),
        i <= layers@.len(),
    ensures
        r.delivered@ == spec_route_key_layers(layers@, key, i as int).0,
        r.action == spec_route_key_layers(layers@, key, i as int).1,
    decreases layers@.len() - i,
{
    if i == layers.len() {
        KeyRouting { delivered: Vec::new(), action: Action::Noop, consumed: false }
    } else {
        let first = layers[i].route_key_event(key);
        if first.consumed {
            first
        } else {
            let rest = route_key_layers_from(layers, key, i + 1);
            let mut delivered = first.delivered;
            let ghost head = delivered@;
            let mut k: usize = 0;
            while k < rest.delivered.len()
                invariant
                    0 <= k <= rest.delivered@.len(),
                    delivered@ =~= head + rest.delivered@.take(k as int),
                decreases rest.delivered@.len() - k,
            {
                delivered.push(rest.delivered[k]);
                proof {
                    assert(rest.delivered@.take(k as int + 1) =~= rest.delivered@.take(
                        k as int,
                    ).push(rest.delivered@[k as int]));
                }
                k = k + 1;
            }
            proof {
                assert(rest.delivered@.take(rest.delivered@.len() as int) =~= rest.delivered@);
            }
            KeyRouting { delivered, action: rest.action, consumed: rest.consumed }
        }
    }
}

/// Dispatches an action through the layers from index `i` on.
fn dispatch_layers_from(layers: &mut Vec<Layer>, action: Action, i: usize) -> (r: Option<Action>)
    requires
        forall|j: int| 0 <= j < old(layers)@.len() ==> (#[trigger] old(layers)@[j]).wf(),
        i <= old(layers)@.len(),
    ensures
        final(layers)@.len() == old(layers)@.len(),
        forall|j: int| 0 <= j < final(layers)@.len() ==> (#[trigger] final(layers)@[j]).wf(),
        forall|j: int| 0 <= j < i ==> final(layers)@[j] == old(layers)@[j],
        layers_dispatch_rel(old(layers)@, final(layers)@, action, i as int, r),
    decreases old(layers)@.len() - i,
{
    if i == layers.len() {
        None
    } else {
        let layer = &mut layers[i];
        let lr = layer.dispatch_action(action);
        let ghost mid = layers@;
        if lr.is_some() {
            lr
        } else {
            let r = dispatch_layers_from(layers, action, i + 1);
            proof {
                lemma_layers_rel_congruence(
                    mid,
                    old(layers)@,
                    layers@,
                    action,
                    i as int + 1,
                    r,
                );
            }
            r
        }
    }
}

} // verus!
