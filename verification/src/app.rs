//! The dispatch loop's decision core: the sole mutator of UI state.
//!
//! Per iteration the loop pops one event, converts it to at most one
//! action, handles built-in control actions centrally, and forwards
//! everything else into the tree's dispatch routing; a follow-up action a
//! component hands back is re-enqueued for a later iteration. The loop
//! around this core — waiting on the event queue, writing grids to the
//! terminal, cancelling producers — lives outside the library; every
//! decision lives here.

use vstd::prelude::*;

use crate::action::Action;
use crate::charbuf::CharBuffer;
use crate::component::{Component, ComponentKind};
use crate::compositor::{render_step, Compositor, CompositorBuffer};
use crate::event::Event;
use crate::frame::{lemma_frame_paints_eq, root_frame};
use crate::geometry::Position;
use crate::identifier::{ComponentId, IdAllocator};
use crate::logger::LogStore;
use crate::root::{layers_dispatch_rel, spec_route_key_layers, Root};

verus! {

/// What one loop iteration asks of its surroundings: a grid to write to
/// the terminal, and an action to re-enqueue for a later iteration.
#[derive(Debug)]
pub struct Step {
    pub output: Option<CharBuffer>,
    pub requeue: Option<Action>,
}

/// The application core: the component tree, the compositor, and the
/// loop's own flags. Exactly one dispatch loop owns it; producers never
/// touch it.
#[derive(Debug)]
pub struct App {
    /// The layered component tree.
    pub root: Root,
    /// The double-buffered render target.
    pub compositor: Compositor,
    /// Set once the application must terminate; the loop stops at the end
    /// of the iteration that set it.
    pub should_close: bool,
    /// The most recent log lines, newest first.
    pub log: LogStore,
    /// How many input-stream failures have been observed.
    pub error_count: u64,
    /// Hands out component identifiers, deterministically.
    pub ids: IdAllocator,
}

/// A grid shows a root when every cell holds what the root's layers paint
/// there — tiled layers first, floating layers over them — on a blank
/// background.
pub open spec fn root_shows(root: Root, b: CharBuffer) -> bool {
    forall|x: int, y: int|
        0 <= x < b.spec_width() && 0 <= y < b.spec_height() ==> b.at(x, y)
            == match crate::root::root_paints(root.layers@, b.spec_width(), b.spec_height(), x, y) {
            Some(c) => c,
            None => crate::charbuf::blank_cell(),
        }
}

/// What applying one action to the application does.
///
/// `Quit` sets the shutdown flag; `Tick` and `Noop` change nothing;
/// `Resize` recreates the compositor's buffers at the new size;
/// `RenderTick` runs a render pass and emits the composed grid; everything
/// else is forwarded into the tree's dispatch routing, and the follow-up
/// action, if any node returned one, is handed back for re-enqueueing.
pub open spec fn apply_rel(pre: App, post: App, a: Action, step: Step) -> bool {
    match a {
        Action::Quit => {
            &&& post == App { should_close: true, ..pre }
            &&& step.output is None
            &&& step.requeue is None
        },
        Action::Tick => post == pre && step.output is None && step.requeue is None,
        Action::Noop => post == pre && step.output is None && step.requeue is None,
        Action::Resize(w, h) => {
            &&& post.root == pre.root
            &&& post.should_close == pre.should_close
            &&& post.log == pre.log
            &&& post.error_count == pre.error_count
            &&& post.ids == pre.ids
            &&& post.compositor.wf()
            &&& post.compositor.screen_size == (Position { x: w as usize, y: h as usize })
            &&& !post.compositor.active
            &&& post.compositor.active_slot() matches CompositorBuffer::NotRendered(f)
                && f.layers@.len() == 0
            &&& post.compositor.inactive_slot() matches CompositorBuffer::Rendered(blank)
                && blank.all_blank()
            &&& step.output is None
            &&& step.requeue is None
        },
        Action::RenderTick => {
            &&& post.root == pre.root
            &&& post.should_close == pre.should_close
            &&& post.log == pre.log
            &&& post.error_count == pre.error_count
            &&& post.ids == pre.ids
            &&& post.compositor.wf()
            &&& post.compositor.screen_size == pre.compositor.screen_size
            &&& step.requeue is None
            &&& step.output matches Some(b) && b.wf() && b.spec_width()
                == pre.compositor.screen_size.x && b.spec_height() == pre.compositor.screen_size.y
                && (pre.root.layers@.len() == 0 ==> b.all_blank()) && root_shows(pre.root, b)
        },
        Action::Custom(_) => {
            &&& post.compositor == pre.compositor
            &&& post.should_close == pre.should_close
            &&& post.log == pre.log
            &&& post.error_count == pre.error_count
            &&& post.ids == pre.ids
            &&& layers_dispatch_rel(pre.root.layers@, post.root.layers@, a, 0, step.requeue)
            &&& step.output is None
        },
    }
}

impl App {
    /// The application's parts are all well formed.
    pub open spec fn wf(self) -> bool {
        &&& self.root.wf()
        &&& self.compositor.wf()
    }

    /// A fresh application over the given screen size: no layers, nothing
    /// drawn, not closing.
    pub fn new(screen_size: Position) -> (r: App)
        ensures
            r.wf(),
            r.root.layers@.len() == 0,
            !r.should_close,
            r.error_count == 0,
            r.compositor.screen_size == screen_size,
            r.log.entries() == Seq::<Seq<char>>::empty(),
    {
        App {
            root: Root::new(),
            compositor: Compositor::new(screen_size),
            should_close: false,
            log: LogStore::new(),
            error_count: 0,
            ids: IdAllocator::new(),
        }
    }

    /// Registers a component with a fresh identifier and mounts it as a
    /// new tiling layer over exactly that component, leaving every earlier
    /// layer untouched.
    pub fn add_component(&mut self, kind: ComponentKind) -> (id: ComponentId)
        requires
            old(self).wf(),
            old(self).ids.next < u64::MAX,
        ensures
            final(self).wf(),
            id.id == old(self).ids.next,
            final(self).ids.next == old(self).ids.next + 1,
            final(self).root.layers@.len() == old(self).root.layers@.len() + 1,
            forall|j: int|
                0 <= j < old(self).root.layers@.len() ==> final(self).root.layers@[j] == old(
                    self,
                ).root.layers@[j],
            final(self).root.layers@.last() matches crate::root::Layer::Tiled(n)
                && n matches crate::tree::ComponentTreeNode::Leaf { component }
                && component.id == id && component.kind == kind && !component.key_opaque
                && !component.mouse_opaque && component.keymap.children@.len() == 0
                && component.keymap.action is None && component.subscriptions@.len() == 0
                && component.pending is None && component.dispatched == 0
                && component.last_action is None,
            final(self).compositor == old(self).compositor,
            final(self).should_close == old(self).should_close,
            final(self).log == old(self).log,
            final(self).error_count == old(self).error_count,
    {
        let id = self.ids.allocate();
        let component = Component::new(id, kind);
        let layer = crate::root::Layer::new_tiled(component);
        self.root.add_layer(layer);
        id
    }

    /// One render pass: snapshots the tree into a frame, draws it, and
    /// composes it. With no layers mounted the grid comes out all blank.
    pub fn render_pass(&mut self) -> (b: CharBuffer)
        requires
            old(self).wf(),
        ensures
            final(self).wf(),
            final(self).root == old(self).root,
            final(self).should_close == old(self).should_close,
            final(self).log == old(self).log,
            final(self).error_count == old(self).error_count,
            final(self).ids == old(self).ids,
            final(self).compositor.wf(),
            final(self).compositor.screen_size == old(self).compositor.screen_size,
            b.wf(),
            b.spec_width() == old(self).compositor.screen_size.x,
            b.spec_height() == old(self).compositor.screen_size.y,
            old(self).root.layers@.len() == 0 ==> b.all_blank(),
            root_shows(old(self).root, b),
    {
        let size = self.compositor.size();
        let frame = root_frame(&self.root, size);
        let ghost empty = frame.layers@.len() == 0;
        self.compositor.draw(frame);
        let ghost mid = self.compositor;
        let b = self.compositor.render();
        proof {
            assert(mid.active_slot() is NotRendered);
            assert(render_step(mid, self.compositor, b));
            if old(self).root.layers@.len() == 0 {
                let post = self.compositor;
                assert(post.inactive_slot() is Rendered);
                let c = post.inactive_slot()->Rendered_0;
                assert(crate::compositor::grid_eq(b, c));
                assert(c.all_blank());
                crate::compositor::lemma_grid_eq_all_blank(b, c);
            }
            {
                let post = self.compositor;
                let c = post.inactive_slot()->Rendered_0;
                assert(crate::compositor::grid_eq(b, c));
                assert(crate::frame::frame_shows(frame, c));
                assert forall|x: int, y: int|
                    0 <= x < b.spec_width() && 0 <= y < b.spec_height() implies b.at(x, y)
                    == match crate::root::root_paints(
                    old(self).root.layers@,
                    b.spec_width(),
                    b.spec_height(),
                    x,
                    y,
                ) {
                    Some(cell) => cell,
                    None => crate::charbuf::blank_cell(),
                } by {
                    lemma_frame_paints_eq(
                        old(self).root.layers@,
                        frame.layers@,
                        b.spec_width(),
                        b.spec_height(),
                        x,
                        y,
                    );
                    assert(b.rows@[y]@ == c.rows@[y]@);
                    assert(c.at(x, y) == match crate::frame::frame_paints(
                        frame.layers@,
                        c.spec_width(),
                        c.spec_height(),
                        x,
                        y,
                    ) {
                        Some(cell) => cell,
                        None => crate::charbuf::blank_cell(),
                    });
                }
            }
        }
        b
    }

    /// Applies one action: built-in control actions are handled centrally,
    /// everything else is forwarded into the tree's dispatch routing.
    pub fn apply_action(&mut self, a: Action) -> (step: Step)
        requires
            old(self).wf(),
        ensures
            final(self).wf(),
            apply_rel(*old(self), *final(self), a, step),
    {
        match a {
            Action::Quit => {
                self.should_close = true;
                Step { output: None, requeue: None }
            },
            Action::Tick => Step { output: None, requeue: None },
            Action::Noop => Step { output: None, requeue: None },
            Action::Resize(w, h) => {
                self.compositor.resize(Position { x: w as usize, y: h as usize });
                Step { output: None, requeue: None }
            },
            Action::RenderTick => {
                let b = self.render_pass();
                Step { output: Some(b), requeue: None }
            },
            Action::Custom(_) => {
                let requeue = self.root.dispatch_action(a);
                Step { output: None, requeue }
            },
        }
    }

    /// Handles one event: converts it to at most one action and applies
    /// it. Tick, render, resize and quit events bypass routing; key and
    /// mouse events go through the focus-routing walk; an input-stream
    /// failure is logged and tolerated once, and shuts the application
    /// down when it recurs.
    ///
    /// A `Quit` event always sets the shutdown flag, so the loop
    /// terminates within the iteration that received it.
    pub fn handle_event(&mut self, event: Event) -> (step: Step)
        requires
            old(self).wf(),
        ensures
            final(self).wf(),
            event is Quit ==> final(self).should_close,
            event is Quit ==> apply_rel(*old(self), *final(self), Action::Quit, step),
            event is AppTick ==> apply_rel(*old(self), *final(self), Action::Tick, step),
            event is RenderTick ==> apply_rel(*old(self), *final(self), Action::RenderTick, step),
            event matches Event::Resize(w, h) ==> apply_rel(
                *old(self),
                *final(self),
                Action::Resize(w, h),
                step,
            ),
            event matches Event::Key(k) ==> apply_rel(
                *old(self),
                *final(self),
                spec_route_key_layers(old(self).root.layers@, k, 0).1,
                step,
            ),
            event is Mouse ==> apply_rel(*old(self), *final(self), Action::Noop, step),
            event is Error ==> ({
                &&& final(self).root == old(self).root
                &&& final(self).compositor == old(self).compositor
                &&& final(self).ids == old(self).ids
                &&& final(self).error_count == if old(self).error_count < u64::MAX {
                    old(self).error_count + 1
                } else {
                    u64::MAX as int
                }
                &&& final(self).should_close == (old(self).should_close || old(self).error_count
                    >= 1)
                &&& final(self).log.entries().len() > 0
                &&& step.output is None
                &&& step.requeue is None
            }),
    {
        match event {
            Event::Quit => self.apply_action(Action::Quit),
            Event::AppTick => self.apply_action(Action::Tick),
            Event::RenderTick => self.apply_action(Action::RenderTick),
            Event::Resize(w, h) => self.apply_action(Action::Resize(w, h)),
            Event::Key(k) => {
                let routing = self.root.route_key_event(k);
                self.apply_action(routing.action)
            },
            Event::Mouse(m) => {
                let a = self.root.handle_mouse_event(m);
                self.apply_action(a)
            },
            Event::Error => {
                self.log.record(String::from_str("input stream failure"));
                if self.error_count >= 1 {
                    self.should_close = true;
                }
                if self.error_count < u64::MAX {
                    self.error_count = self.error_count + 1;
                }
                Step { output: None, requeue: None }
            },
        }
    }
}

} // verus!
