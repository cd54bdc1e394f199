//! The frame: the builder a draw pass fills and the compositor stores.
//!
//! A frame holds a snapshot of what each layer draws — plain visuals, not
//! the components themselves — so drawing never aliases the live component
//! tree. Rendering a frame composes its layers onto a fresh blank grid:
//! tiled layers first, in order, then floating layers, clipped to their own
//! rectangles.

use vstd::prelude::*;

use crate::charbuf::{Cell, CharBuffer};
use crate::component::{
    in_rect, lines_cell, render_lines, render_text, text_cell, Component, ComponentKind,
};
use crate::geometry::{Orientation, Position, Rect};
use crate::layout::{child_rect, split_rect, Constraint};
use crate::root::{Layer, Root};
use crate::tree::{lemma_child_rects_disjoint, ComponentTreeNode};

verus! {

/// What one leaf draws: nothing, a run of text, or a list of lines.
#[derive(Debug)]
pub enum Visual {
    Empty,
    Text(String),
    Lines(Vec<String>),
}

/// A snapshot of a layout tree: the same shape, with each component
/// replaced by what it draws.
#[derive(Debug)]
pub enum VisualNode {
    Leaf {
        visual: Visual,
    },
    Branch {
        children: Vec<VisualNode>,
        direction: Orientation,
        constraints: Vec<Constraint>,
    },
}

/// A snapshot of one layer.
#[derive(Debug)]
pub enum VisualLayer {
    Tiled(VisualNode),
    Floating(Visual, Rect),
}

/// A component's behavior and a visual agree when the visual shows exactly
/// what the component draws.
pub open spec fn kind_visual_rel(kind: ComponentKind, v: Visual) -> bool {
    match kind {
        ComponentKind::Empty => v is Empty,
        ComponentKind::Text(t) => v matches Visual::Text(s) && s@ == t.text@,
        ComponentKind::Logger(lg) => v matches Visual::Lines(ls) && ls@.map_values(
            |s: String| s@,
        ) == lg.entries(),
    }
}

impl Visual {
    /// The cell this visual paints at `(x, y)` inside `rect`, or `None` if
    /// it leaves the cell as it was.
    pub open spec fn paints(&self, rect: Rect, x: int, y: int) -> Option<Cell> {
        match self {
            Visual::Empty => None,
            Visual::Text(s) => Some(text_cell(s@, rect, x, y)),
            Visual::Lines(ls) => Some(
                lines_cell(ls@.map_values(|s: String| s@), rect, x, y),
            ),
        }
    }

    /// Draws this visual into `rect`, leaving every cell outside `rect`
    /// exactly as it was.
    pub fn render(&self, buf: &mut CharBuffer, rect: Rect)
        requires
            old(buf).wf(),
            rect.wf(),
            crate::component::rect_in_buffer(rect, *old(buf)),
        ensures
            final(buf).wf(),
            final(buf).spec_width() == old(buf).spec_width(),
            final(buf).spec_height() == old(buf).spec_height(),
            forall|x: int, y: int|
                0 <= x < old(buf).spec_width() && 0 <= y < old(buf).spec_height() && !in_rect(
                    rect,
                    x,
                    y,
                ) ==> final(buf).at(x, y) == old(buf).at(x, y),
            forall|x: int, y: int|
                in_rect(rect, x, y) ==> final(buf).at(x, y) == match self.paints(rect, x, y) {
                    Some(c) => c,
                    None => old(buf).at(x, y),
                },
    {
        match self {
            Visual::Empty => {},
            Visual::Text(s) => {
                render_text(buf, rect, s);
            },
            Visual::Lines(ls) => {
                render_lines(buf, rect, ls);
            },
        }
    }
}

/// A component and a visual agree when the visual shows what the component
/// draws.
pub open spec fn component_visual_rel(c: Component, v: Visual) -> bool {
    kind_visual_rel(c.kind, v)
}

/// The cell a visual tree paints at `(x, y)` inside `rect`, or `None` if
/// it leaves the cell as it was: the snapshot analogue of the live tree's
/// paint.
pub open spec fn visual_node_paints(n: VisualNode, rect: Rect, x: int, y: int) -> Option<Cell>
    decreases n, 0int,
{
    match n {
        VisualNode::Leaf { visual } => visual.paints(rect, x, y),
        VisualNode::Branch { children, direction, constraints } => visual_children_paint(
            children@,
            rect,
            direction,
            constraints@,
            children@.len() as int,
            x,
            y,
        ),
    }
}

/// What the first `upto` children of a visual branch paint at `(x, y)`.
pub open spec fn visual_children_paint(
    children: Seq<VisualNode>,
    rect: Rect,
    direction: Orientation,
    cs: Seq<Constraint>,
    upto: int,
    x: int,
    y: int,
) -> Option<Cell>
    decreases children, upto,
    via visual_children_paint_decreases
{
    if upto <= 0 || upto > children.len() {
        None
    } else {
        let r = child_rect(rect, direction, cs, upto - 1);
        if in_rect(r, x, y) {
            match visual_node_paints(children[upto - 1], r, x, y) {
                Some(c) => Some(c),
                None => visual_children_paint(children, rect, direction, cs, upto - 1, x, y),
            }
        } else {
            visual_children_paint(children, rect, direction, cs, upto - 1, x, y)
        }
    }
}

#[via_fn]
proof fn visual_children_paint_decreases(
    children: Seq<VisualNode>,
    rect: Rect,
    direction: Orientation,
    cs: Seq<Constraint>,
    upto: int,
    x: int,
    y: int,
) {
    broadcast use vstd::seq::axiom_seq_index_decreases;

    if 0 < upto <= children.len() {
        assert(decreases_to!(children => children[upto - 1]));
    }
}

/// A cell inside the sub-rectangle of a child at or past `upto` is painted
/// by none of the first `upto` visual children.
proof fn lemma_visual_children_paint_disjoint(
    children: Seq<VisualNode>,
    rect: Rect,
    direction: Orientation,
    cs: Seq<Constraint>,
    upto: int,
    j: int,
    x: int,
    y: int,
)
    requires
        rect.wf(),
        0 <= upto <= j < cs.len(),
        in_rect(child_rect(rect, direction, cs, j), x, y),
    ensures
        visual_children_paint(children, rect, direction, cs, upto, x, y) is None,
    decreases upto,
{
    if upto > 0 {
        lemma_child_rects_disjoint(rect, direction, cs, upto - 1, j, x, y);
        lemma_visual_children_paint_disjoint(children, rect, direction, cs, upto - 1, j, x, y);
    }
}

impl VisualNode {
    /// A visual tree is well formed when every branch carries exactly one
    /// constraint per child.
    pub open spec fn wf(self) -> bool
        decreases self,
    {
        match self {
            VisualNode::Leaf { .. } => true,
            VisualNode::Branch { children, constraints, .. } => {
                &&& constraints@.len() == children@.len()
                &&& forall|i: int| 0 <= i < children@.len() ==> (#[trigger] children@[i]).wf()
            },
        }
    }

    /// Renders this snapshot into `rect`, partitioning branches exactly as
    /// the live tree would. Cells outside `rect` are never touched.
    #[verifier::rlimit(60)]
    #[verifier::spinoff_prover]
    pub fn render(&self, buf: &mut CharBuffer, rect: Rect)
        requires
            self.wf(),
            old(buf).wf(),
            rect.wf(),
            crate::component::rect_in_buffer(rect, *old(buf)),
        ensures
            final(buf).wf(),
            final(buf).spec_width() == old(buf).spec_width(),
            final(buf).spec_height() == old(buf).spec_height(),
            forall|x: int, y: int|
                0 <= x < old(buf).spec_width() && 0 <= y < old(buf).spec_height() && !in_rect(
                    rect,
                    x,
                    y,
                ) ==> final(buf).at(x, y) == old(buf).at(x, y),
            forall|x: int, y: int|
                in_rect(rect, x, y) ==> final(buf).at(x, y) == match visual_node_paints(
                    *self,
                    rect,
                    x,
                    y,
                ) {
                    Some(c) => c,
                    None => old(buf).at(x, y),
                },
        decreases *self,
    {
        match self {
            VisualNode::Leaf { visual } => {
                visual.render(buf, rect);
            },
            VisualNode::Branch { children, direction, constraints } => {
                if children.len() == 0 {
                    return ;
                }
                let rects = split_rect(rect, *direction, constraints);
                let mut i: usize = 0;
                #[verifier::loop_isolation(false)]
                while i < children.len()
                    invariant
                        buf.wf(),
                        buf.spec_width() == old(buf).spec_width(),
                        buf.spec_height() == old(buf).spec_height(),
                        0 <= i <= children@.len(),
                        forall|m: int|
                            0 <= m < rects@.len() ==> (#[trigger] rects@[m]) == child_rect(
                                rect,
                                *direction,
                                constraints@,
                                m,
                            ),
                        forall|x: int, y: int|
                            0 <= x < old(buf).spec_width() && 0 <= y < old(buf).spec_height()
                                && !in_rect(rect, x, y) ==> buf.at(x, y) == old(buf).at(x, y),
                        forall|x: int, y: int|
                            in_rect(rect, x, y) ==> buf.at(x, y) == match visual_children_paint(
                                children@,
                                rect,
                                *direction,
                                constraints@,
                                i as int,
                                x,
                                y,
                            ) {
                                Some(c) => c,
                                None => old(buf).at(x, y),
                            },
                    decreases children@.len() - i,
                {
                    proof {
                        broadcast use vstd::std_specs::vec::group_vec_axioms;

                        assert(decreases_to!(*self => *children));
                        assert(decreases_to!(*children => children[i as int]));
                    }
                    let ghost before = *buf;
                    children[i].render(buf, rects[i]);
                    proof {
                        assert forall|x: int, y: int|
                            0 <= x < old(buf).spec_width() && 0 <= y < old(buf).spec_height()
                                && !in_rect(rect, x, y) implies buf.at(x, y) == old(buf).at(
                            x,
                            y,
                        ) by {
                            assert(crate::tree::rect_contains(rect, rects@[i as int]));
                            assert(!in_rect(rects@[i as int], x, y));
                        }
                        assert forall|x: int, y: int| in_rect(rect, x, y) implies buf.at(x, y)
                            == match visual_children_paint(
                            children@,
                            rect,
                            *direction,
                            constraints@,
                            i as int + 1,
                            x,
                            y,
                        ) {
                            Some(c) => c,
                            None => old(buf).at(x, y),
                        } by {
                            let r_i = child_rect(rect, *direction, constraints@, i as int);
                            assert(rects@[i as int] == r_i);
                            if in_rect(r_i, x, y) {
                                lemma_visual_children_paint_disjoint(
                                    children@,
                                    rect,
                                    *direction,
                                    constraints@,
                                    i as int,
                                    i as int,
                                    x,
                                    y,
                                );
                                assert(before.at(x, y) == old(buf).at(x, y));
                                assert(buf.at(x, y) == match visual_node_paints(
                                    children@[i as int],
                                    r_i,
                                    x,
                                    y,
                                ) {
                                    Some(c) => c,
                                    None => before.at(x, y),
                                });
                            } else {
                                assert(buf.at(x, y) == before.at(x, y));
                            }
                        }
                    }
                    i = i + 1;
                }
            },
        }
    }
}

/// The cell one layer snapshot paints on a grid of the given extent, or
/// `None` if it leaves the cell as it was.
pub open spec fn visual_layer_paints(
    l: VisualLayer,
    width: int,
    height: int,
    x: int,
    y: int,
) -> Option<Cell> {
    match l {
        VisualLayer::Tiled(n) => visual_node_paints(n, crate::component::full_rect(width, height), x, y),
        VisualLayer::Floating(v, r) => {
            let clipped = crate::root::spec_clip_rect(r, width, height);
            if in_rect(clipped, x, y) {
                v.paints(clipped, x, y)
            } else {
                None
            }
        },
    }
}

/// The cell painted by the last layer snapshot among the first `upto` that
/// belongs to the given pass (tiled or floating) and paints the cell.
pub open spec fn visual_pass_paints(
    ls: Seq<VisualLayer>,
    tiled: bool,
    width: int,
    height: int,
    upto: int,
    x: int,
    y: int,
) -> Option<Cell>
    decreases upto,
{
    if upto <= 0 || upto > ls.len() {
        None
    } else if (ls[upto - 1] is Tiled) == tiled && visual_layer_paints(
        ls[upto - 1],
        width,
        height,
        x,
        y,
    ) is Some {
        visual_layer_paints(ls[upto - 1], width, height, x, y)
    } else {
        visual_pass_paints(ls, tiled, width, height, upto - 1, x, y)
    }
}

/// The cell a frame paints on a grid of the given extent: tiled layers
/// draw first, in order, then floating layers draw over them.
pub open spec fn frame_paints(
    ls: Seq<VisualLayer>,
    width: int,
    height: int,
    x: int,
    y: int,
) -> Option<Cell> {
    match visual_pass_paints(ls, false, width, height, ls.len() as int, x, y) {
        Some(c) => Some(c),
        None => visual_pass_paints(ls, true, width, height, ls.len() as int, x, y),
    }
}

/// A grid shows a frame when every cell holds what the frame paints there,
/// over a blank background.
pub open spec fn frame_shows(f: Frame, b: CharBuffer) -> bool {
    forall|x: int, y: int|
        0 <= x < b.spec_width() && 0 <= y < b.spec_height() ==> b.at(x, y) == match frame_paints(
            f.layers@,
            b.spec_width(),
            b.spec_height(),
            x,
            y,
        ) {
            Some(c) => c,
            None => crate::charbuf::blank_cell(),
        }
}

impl VisualLayer {

    /// A visual layer is well formed when its tree is, and a floating
    /// rectangle has ordered corners.
    pub open spec fn wf(self) -> bool {
        match self {
            VisualLayer::Tiled(node) => node.wf(),
            VisualLayer::Floating(_, rect) => rect.wf(),
        }
    }

    /// Whether this layer participates in tiling.
    pub fn is_tiled(&self) -> (r: bool)
        ensures
            r == (self is Tiled),
    {
        match self {
            VisualLayer::Tiled(_) => true,
            VisualLayer::Floating(_, _) => false,
        }
    }

    /// Renders this layer snapshot: a tiled layer fills the whole grid
    /// through its tree, a floating layer draws its visual clipped to its
    /// own rectangle. Every cell ends up showing what the layer paints
    /// there; a cell it does not paint is left untouched.
    pub fn render(&self, buf: &mut CharBuffer)
        requires
            self.wf(),
            old(buf).wf(),
        ensures
            final(buf).wf(),
            final(buf).spec_width() == old(buf).spec_width(),
            final(buf).spec_height() == old(buf).spec_height(),
            forall|x: int, y: int|
                0 <= x < old(buf).spec_width() && 0 <= y < old(buf).spec_height()
                    ==> final(buf).at(x, y) == match visual_layer_paints(
                    *self,
                    old(buf).spec_width(),
                    old(buf).spec_height(),
                    x,
                    y,
                ) {
                    Some(c) => c,
                    None => old(buf).at(x, y),
                },
    {
        match self {
            VisualLayer::Tiled(node) => {
                let w = buf.width();
                let h = buf.height();
                let full = Rect {
                    corner1: Position { x: 0, y: 0 },
                    corner2: Position { x: w, y: h },
                };
                node.render(buf, full);
                proof {
                    assert(full == crate::component::full_rect(
                        old(buf).spec_width(),
                        old(buf).spec_height(),
                    ));
                    assert forall|x: int, y: int|
                        0 <= x < old(buf).spec_width() && 0 <= y < old(buf).spec_height()
                            implies buf.at(x, y) == match visual_layer_paints(
                        *self,
                        old(buf).spec_width(),
                        old(buf).spec_height(),
                        x,
                        y,
                    ) {
                        Some(c) => c,
                        None => old(buf).at(x, y),
                    } by {
                        assert(in_rect(full, x, y));
                    }
                }
            },
            VisualLayer::Floating(visual, rect) => {
                let w = buf.width();
                let h = buf.height();
                let clipped = crate::root::clip_rect(*rect, w, h);
                visual.render(buf, clipped);
                proof {
                    assert forall|x: int, y: int|
                        0 <= x < old(buf).spec_width() && 0 <= y < old(buf).spec_height()
                            implies buf.at(x, y) == match visual_layer_paints(
                        *self,
                        old(buf).spec_width(),
                        old(buf).spec_height(),
                        x,
                        y,
                    ) {
                        Some(c) => c,
                        None => old(buf).at(x, y),
                    } by {}
                }
            },
        }
    }
}

/// The builder a draw pass fills: an ordered list of layer snapshots over a
/// fixed screen size. Later layers draw over earlier ones.
#[derive(Debug)]
pub struct Frame {
    pub layers: Vec<VisualLayer>,
    pub screen_size: Position,
}

impl Frame {
    /// A frame is well formed when all its layers are.
    pub open spec fn wf(self) -> bool {
        forall|i: int| 0 <= i < self.layers@.len() ==> (#[trigger] self.layers@[i]).wf()
    }

    /// An empty frame of the given screen size.
    pub fn new(screen_size: Position) -> (r: Frame)
        ensures
            r.wf(),
            r.layers@.len() == 0,
            r.screen_size == screen_size,
    {
        Frame { layers: Vec::new(), screen_size }
    }

    /// Adds a layer to the front of the frame: later layers draw over
    /// earlier ones.
    pub fn add_layer(&mut self, layer: VisualLayer)
        requires
            old(self).wf(),
            layer.wf(),
        ensures
            final(self).wf(),
            final(self).layers@ == old(self).layers@.push(layer),
            final(self).screen_size == old(self).screen_size,
    {
        self.layers.push(layer);
        proof {
            assert forall|i: int| 0 <= i < self.layers@.len() implies (
            #[trigger] self.layers@[i]).wf() by {
                if i < self.layers@.len() - 1 {
                    assert(self.layers@[i] == old(self).layers@[i]);
                }
            }
        }
    }

    /// Composes the frame into one fully drawn character grid: a blank
    /// grid of the frame's screen size, painted by the tiled layers in
    /// order and then by the floating layers in order. Every cell shows
    /// what the frame paints there; a cell no layer paints stays blank, so
    /// a frame without layers composes to an all-blank grid.
    pub fn render(&self) -> (r: CharBuffer)
        requires
            self.wf(),
        ensures
            r.wf(),
            r.spec_width() == self.screen_size.x,
            r.spec_height() == self.screen_size.y,
            frame_shows(*self, r),
            self.layers@.len() == 0 ==> r.all_blank(),
    {
        let ghost w = self.screen_size.x as int;
        let ghost h = self.screen_size.y as int;
        let mut buf = CharBuffer::new(self.screen_size);
        let mut i: usize = 0;
        while i < self.layers.len()
            invariant
                self.wf(),
                buf.wf(),
                w == self.screen_size.x,
                h == self.screen_size.y,
                buf.spec_width() == w,
                buf.spec_height() == h,
                0 <= i <= self.layers@.len(),
                forall|x: int, y: int|
                    0 <= x < w && 0 <= y < h ==> buf.at(x, y) == match visual_pass_paints(
                        self.layers@,
                        true,
                        w,
                        h,
                        i as int,
                        x,
                        y,
                    ) {
                        Some(c) => c,
                        None => crate::charbuf::blank_cell(),
                    },
            decreases self.layers@.len() - i,
        {
            let ghost before = buf;
            if self.layers[i].is_tiled() {
                self.layers[i].render(&mut buf);
            }
            proof {
                assert forall|x: int, y: int| 0 <= x < w && 0 <= y < h implies buf.at(x, y)
                    == match visual_pass_paints(self.layers@, true, w, h, i as int + 1, x, y) {
                    Some(c) => c,
                    None => crate::charbuf::blank_cell(),
                } by {
                    if !(self.layers@[i as int] is Tiled) {
                        assert(buf.at(x, y) == before.at(x, y));
                    }
                }
            }
            i = i + 1;
        }
        let mut j: usize = 0;
        while j < self.layers.len()
            invariant
                self.wf(),
                buf.wf(),
                w == self.screen_size.x,
                h == self.screen_size.y,
                buf.spec_width() == w,
                buf.spec_height() == h,
                0 <= j <= self.layers@.len(),
                forall|x: int, y: int|
                    0 <= x < w && 0 <= y < h ==> buf.at(x, y) == match visual_pass_paints(
                        self.layers@,
                        false,
                        w,
                        h,
                        j as int,
                        x,
                        y,
                    ) {
                        Some(c) => c,
                        None => match visual_pass_paints(
                            self.layers@,
                            true,
                            w,
                            h,
                            self.layers@.len() as int,
                            x,
                            y,
                        ) {
                            Some(c) => c,
                            None => crate::charbuf::blank_cell(),
                        },
                    },
            decreases self.layers@.len() - j,
        {
            let ghost before = buf;
            if !self.layers[j].is_tiled() {
                self.layers[j].render(&mut buf);
            }
            proof {
                assert forall|x: int, y: int| 0 <= x < w && 0 <= y < h implies buf.at(x, y)
                    == match visual_pass_paints(self.layers@, false, w, h, j as int + 1, x, y) {
                    Some(c) => c,
                    None => match visual_pass_paints(
                        self.layers@,
                        true,
                        w,
                        h,
                        self.layers@.len() as int,
                        x,
                        y,
                    ) {
                        Some(c) => c,
                        None => crate::charbuf::blank_cell(),
                    },
                } by {
                    if self.layers@[j as int] is Tiled {
                        assert(buf.at(x, y) == before.at(x, y));
                    }
                }
            }
            j = j + 1;
        }
        buf
    }
}

/// A tree and a visual tree agree when they have the same shape and each
/// visual shows what its component draws.
pub open spec fn node_visual_rel(n: ComponentTreeNode, v: VisualNode) -> bool
    decreases n,
{
    match n {
        ComponentTreeNode::Leaf { component } => v matches VisualNode::Leaf { visual }
            && kind_visual_rel(component.kind, visual),
        ComponentTreeNode::Branch { children, direction, constraints, .. } => v matches VisualNode::Branch {
            children: vc,
            direction: vd,
            constraints: vk,
        } && vd == direction && vk@ == constraints@ && vc@.len() == children@.len() && forall|
            i: int,
        |
            0 <= i < children@.len() ==> node_visual_rel(#[trigger] children@[i], vc@[i]),
    }
}

/// A layer and a visual layer agree when their snapshots match.
pub open spec fn layer_visual_rel(l: Layer, v: VisualLayer) -> bool {
    match l {
        Layer::Tiled(n) => v matches VisualLayer::Tiled(vn) && node_visual_rel(n, vn),
        Layer::Floating(c, r) => v matches VisualLayer::Floating(visual, vr) && vr == r
            && kind_visual_rel(c.kind, visual),
    }
}

/// A component's behavior and a visual that agree paint the same cells.
pub proof fn lemma_kind_visual_paints(kind: ComponentKind, v: Visual, rect: Rect, x: int, y: int)
    requires
        kind_visual_rel(kind, v),
    ensures
        v.paints(rect, x, y) == kind.paints(rect, x, y),
{
}

/// Agreeing trees and snapshots paint the same cells.
pub proof fn lemma_node_paints_eq(n: ComponentTreeNode, v: VisualNode, rect: Rect, x: int, y: int)
    requires
        node_visual_rel(n, v),
    ensures
        visual_node_paints(v, rect, x, y) == crate::tree::node_paints(n, rect, x, y),
    decreases n, 0int,
{
    if n is Leaf {
        lemma_kind_visual_paints(n->Leaf_component.kind, v->Leaf_visual, rect, x, y);
    } else {
        let children = n->Branch_children;
        let direction = n->Branch_direction;
        let constraints = n->Branch_constraints;
        let vc = v->Branch_children;
        lemma_children_paints_eq(
            children@,
            vc@,
            rect,
            direction,
            constraints@,
            children@.len() as int,
            x,
            y,
        );
    }
}

/// Agreeing child lists paint the same cells, child by child.
proof fn lemma_children_paints_eq(
    children: Seq<ComponentTreeNode>,
    vc: Seq<VisualNode>,
    rect: Rect,
    direction: Orientation,
    cs: Seq<Constraint>,
    upto: int,
    x: int,
    y: int,
)
    requires
        vc.len() == children.len(),
        forall|i: int| 0 <= i < children.len() ==> node_visual_rel(#[trigger] children[i], vc[i]),
    ensures
        visual_children_paint(vc, rect, direction, cs, upto, x, y) == crate::tree::children_paint(
            children,
            rect,
            direction,
            cs,
            upto,
            x,
            y,
        ),
    decreases children, upto,
{
    if 0 < upto <= children.len() {
        broadcast use vstd::seq::axiom_seq_index_decreases;

        assert(decreases_to!(children => children[upto - 1]));
        lemma_node_paints_eq(
            children[upto - 1],
            vc[upto - 1],
            child_rect(rect, direction, cs, upto - 1),
            x,
            y,
        );
        lemma_children_paints_eq(children, vc, rect, direction, cs, upto - 1, x, y);
    }
}

/// Agreeing layers paint the same cells.
pub proof fn lemma_layer_paints_eq(
    l: Layer,
    v: VisualLayer,
    width: int,
    height: int,
    x: int,
    y: int,
)
    requires
        layer_visual_rel(l, v),
    ensures
        visual_layer_paints(v, width, height, x, y) == crate::root::layer_paints(
            l,
            width,
            height,
            x,
            y,
        ),
{
    match l {
        Layer::Tiled(n) => {
            lemma_node_paints_eq(
                n,
                v->Tiled_0,
                crate::component::full_rect(width, height),
                x,
                y,
            );
        },
        Layer::Floating(c, r) => {
            let clipped = crate::root::spec_clip_rect(r, width, height);
            if in_rect(clipped, x, y) {
                lemma_kind_visual_paints(c.kind, v->Floating_0, clipped, x, y);
            }
        },
    }
}

/// Agreeing layer lists paint the same cells, pass by pass.
proof fn lemma_pass_paints_eq(
    ls: Seq<Layer>,
    vs: Seq<VisualLayer>,
    tiled: bool,
    width: int,
    height: int,
    upto: int,
    x: int,
    y: int,
)
    requires
        vs.len() == ls.len(),
        forall|i: int| 0 <= i < ls.len() ==> layer_visual_rel(#[trigger] ls[i], vs[i]),
    ensures
        visual_pass_paints(vs, tiled, width, height, upto, x, y) == crate::root::pass_paints(
            ls,
            tiled,
            width,
            height,
            upto,
            x,
            y,
        ),
    decreases upto,
{
    if 0 < upto <= ls.len() {
        lemma_layer_paints_eq(ls[upto - 1], vs[upto - 1], width, height, x, y);
        lemma_pass_paints_eq(ls, vs, tiled, width, height, upto - 1, x, y);
    }
}

/// A frame that snapshots a root paints exactly what the root paints.
pub proof fn lemma_frame_paints_eq(
    ls: Seq<Layer>,
    vs: Seq<VisualLayer>,
    width: int,
    height: int,
    x: int,
    y: int,
)
    requires
        vs.len() == ls.len(),
        forall|i: int| 0 <= i < ls.len() ==> layer_visual_rel(#[trigger] ls[i], vs[i]),
    ensures
        frame_paints(vs, width, height, x, y) == crate::root::root_paints(ls, width, height, x, y),
{
    lemma_pass_paints_eq(ls, vs, false, width, height, ls.len() as int, x, y);
    lemma_pass_paints_eq(ls, vs, true, width, height, ls.len() as int, x, y);
}

/// A snapshot of what one component draws.
pub fn component_visual(c: &Component) -> (r: Visual)
    ensures
        component_visual_rel(*c, r),
{
    match &c.kind {
        ComponentKind::Empty => Visual::Empty,
        ComponentKind::Text(t) => Visual::Text(t.text.clone()),
        ComponentKind::Logger(lg) => Visual::Lines(lg.lines()),
    }
}

/// A snapshot of a layout tree.
pub fn node_snapshot(n: &ComponentTreeNode) -> (r: VisualNode)
    requires
        n.wf(),
    ensures
        r.wf(),
        node_visual_rel(*n, r),
    decreases *n,
{
    match n {
        ComponentTreeNode::Leaf { component } => VisualNode::Leaf {
            visual: component_visual(component),
        },
        ComponentTreeNode::Branch { children, direction, constraints, .. } => {
            let mut vc: Vec<VisualNode> = Vec::new();
            let mut i: usize = 0;
            #[verifier::loop_isolation(false)]
            while i < children.len()
                invariant
                    0 <= i <= children@.len(),
                    vc@.len() == i,
                    forall|j: int| 0 <= j < i ==> (#[trigger] vc@[j]).wf(),
                    forall|j: int|
                        0 <= j < i ==> node_visual_rel(#[trigger] children@[j], vc@[j]),
                decreases children@.len() - i,
            {
                proof {
                    broadcast use vstd::std_specs::vec::group_vec_axioms;

                    assert(decreases_to!(*n => *children));
                    assert(decreases_to!(*children => children[i as int]));
                }
                let snap = node_snapshot(&children[i]);
                vc.push(snap);
                i = i + 1;
            }
            let mut vk: Vec<Constraint> = Vec::new();
            let mut k: usize = 0;
            while k < constraints.len()
                invariant
                    0 <= k <= constraints@.len(),
                    vk@ =~= constraints@.take(k as int),
                decreases constraints@.len() - k,
            {
                vk.push(constraints[k]);
                proof {
                    assert(constraints@.take(k as int + 1) =~= constraints@.take(k as int).push(
                        constraints@[k as int],
                    ));
                }
                k = k + 1;
            }
            proof {
                assert(constraints@.take(constraints@.len() as int) =~= constraints@);
            }
            VisualNode::Branch { children: vc, direction: *direction, constraints: vk }
        },
    }
}

/// A snapshot of one layer.
pub fn layer_snapshot(l: &Layer) -> (r: VisualLayer)
    requires
        l.wf(),
    ensures
        r.wf(),
        layer_visual_rel(*l, r),
{
    match l {
        Layer::Tiled(n) => VisualLayer::Tiled(node_snapshot(n)),
        Layer::Floating(c, rect) => VisualLayer::Floating(component_visual(c), *rect),
    }
}

/// A frame showing what the root's layers draw right now, over the given
/// screen size.
pub fn root_frame(root: &Root, screen_size: Position) -> (r: Frame)
    requires
        root.wf(),
    ensures
        r.wf(),
        r.screen_size == screen_size,
        r.layers@.len() == root.layers@.len(),
        forall|i: int|
            0 <= i < root.layers@.len() ==> layer_visual_rel(
                #[trigger] root.layers@[i],
                r.layers@[i],
            ),
{
    let mut frame = Frame::new(screen_size);
    let mut i: usize = 0;
    while i < root.layers.len()
        invariant
            root.wf(),
            frame.wf(),
            frame.screen_size == screen_size,
            0 <= i <= root.layers@.len(),
            frame.layers@.len() == i,
            forall|j: int|
                0 <= j < i ==> layer_visual_rel(#[trigger] root.layers@[j], frame.layers@[j]),
        decreases root.layers@.len() - i,
    {
        let snap = layer_snapshot(&root.layers[i]);
        frame.add_layer(snap);
        i = i + 1;
    }
    frame
}

} // verus!
