use octyl::action::Action;
use octyl::app::App;
use octyl::charbuf::{CharBuffer, Cell};
use octyl::component::{Component, ComponentKind, TextComponent};
use octyl::compositor::{diff, Compositor, Diff};
use octyl::event::{Event, KeyCode, KeyEvent, KeyEventKind, KeyModifiers};
use octyl::frame::{root_frame, Frame, VisualLayer, VisualNode, Visual};
use octyl::geometry::{Orientation, Position, Rect};
use octyl::identifier::IdAllocator;
use octyl::layout::Constraint;
use octyl::root::{Layer, Root};
use octyl::tree::{ComponentTreeNode, TreeError};

fn press(c: char) -> KeyEvent {
    KeyEvent::new(
        KeyCode::Char(c),
        KeyModifiers {
            shift: false,
            alt: false,
            control: false,
        },
        KeyEventKind::Press,
    )
}

fn leaf_with_binding(
    ids: &mut IdAllocator,
    key: KeyEvent,
    action: Action,
    opaque: bool,
) -> Component {
    let mut c = Component::new(ids.allocate(), ComponentKind::Empty);
    c.key_opaque = opaque;
    c.keymap.add_map(&vec![key], action).unwrap();
    c
}

#[test]
fn get_focused_reaches_a_leaf() {
    let mut ids = IdAllocator::new();
    let a = Component::new(ids.allocate(), ComponentKind::Empty);
    let a_id = a.id;
    let b = Component::new(ids.allocate(), ComponentKind::Empty);
    let tree = ComponentTreeNode::new_branch(
        vec![
            ComponentTreeNode::new_leaf(a),
            ComponentTreeNode::new_leaf(b),
        ],
        Orientation::Horizontal,
        vec![Constraint::Flexible, Constraint::Flexible],
        0,
    )
    .unwrap();
    let focused = tree.get_focused().expect("valid focus must reach a leaf");
    assert_eq!(focused.id, a_id);
}

#[test]
fn get_focused_on_empty_branch_is_none() {
    let tree = ComponentTreeNode::new();
    assert!(tree.get_focused().is_none());
}

#[test]
fn branch_construction_fails_fast() {
    let mut ids = IdAllocator::new();
    let a = Component::new(ids.allocate(), ComponentKind::Empty);
    // one child, no constraint: constraint/child count mismatch
    let r = ComponentTreeNode::new_branch(
        vec![ComponentTreeNode::new_leaf(a)],
        Orientation::Horizontal,
        vec![],
        0,
    );
    assert!(matches!(r, Err(TreeError::ConstraintMismatch)));

    let b = Component::new(ids.allocate(), ComponentKind::Empty);
    // one child, focus out of range
    let r = ComponentTreeNode::new_branch(
        vec![ComponentTreeNode::new_leaf(b)],
        Orientation::Horizontal,
        vec![Constraint::Flexible],
        5,
    );
    assert!(matches!(r, Err(TreeError::FocusOutOfRange)));
}

#[test]
fn opaque_focused_leaf_blocks_siblings_and_parent() {
    let key = press('x');
    let mut ids = IdAllocator::new();
    let focused = leaf_with_binding(&mut ids, key, Action::Custom(7), true);
    let focused_id = focused.id;
    let sibling = Component::new(ids.allocate(), ComponentKind::Empty);
    let sibling_id = sibling.id;
    let handler = Component::new(ids.allocate(), ComponentKind::Empty);
    let handler_id = handler.id;

    let mut tree = ComponentTreeNode::new_branch(
        vec![
            ComponentTreeNode::new_leaf(focused),
            ComponentTreeNode::new_leaf(sibling),
        ],
        Orientation::Horizontal,
        vec![Constraint::Flexible, Constraint::Flexible],
        0,
    )
    .unwrap();
    tree.set_handler(handler);

    let routing = tree.route_key_event(key);
    assert!(routing.consumed);
    assert_eq!(routing.action, Action::Custom(7));
    // the event reaches only the opaque focused leaf
    assert_eq!(routing.delivered, vec![focused_id]);
    assert!(!routing.delivered.contains(&sibling_id));
    assert!(!routing.delivered.contains(&handler_id));
}

#[test]
fn transparent_focused_leaf_also_reaches_parent_handler() {
    let key = press('x');
    let mut ids = IdAllocator::new();
    let focused = leaf_with_binding(&mut ids, key, Action::Custom(7), false);
    let focused_id = focused.id;
    let sibling = Component::new(ids.allocate(), ComponentKind::Empty);
    let sibling_id = sibling.id;
    let handler = Component::new(ids.allocate(), ComponentKind::Empty);
    let handler_id = handler.id;

    let mut tree = ComponentTreeNode::new_branch(
        vec![
            ComponentTreeNode::new_leaf(focused),
            ComponentTreeNode::new_leaf(sibling),
        ],
        Orientation::Horizontal,
        vec![Constraint::Flexible, Constraint::Flexible],
        0,
    )
    .unwrap();
    tree.set_handler(handler);

    let routing = tree.route_key_event(key);
    assert!(!routing.consumed);
    assert_eq!(routing.action, Action::Custom(7));
    // the event now also reaches the parent branch's own handler
    assert_eq!(routing.delivered, vec![handler_id, focused_id]);
    assert!(!routing.delivered.contains(&sibling_id));
}

#[test]
fn dispatch_returns_pending_follow_up_once() {
    let mut ids = IdAllocator::new();
    let mut c = Component::new(ids.allocate(), ComponentKind::Empty);
    c.pending = Some(Action::Custom(9));
    let mut tree = ComponentTreeNode::new_leaf(c);

    let first = tree.dispatch_action(Action::Tick);
    assert_eq!(first, Some(Action::Custom(9)));
    let second = tree.dispatch_action(Action::Tick);
    assert_eq!(second, None);
}

#[test]
fn dispatch_records_delivery() {
    let mut ids = IdAllocator::new();
    let c = Component::new(ids.allocate(), ComponentKind::Empty);
    let mut tree = ComponentTreeNode::new_leaf(c);
    tree.dispatch_action(Action::Custom(3));
    let focused = tree.get_focused().unwrap();
    assert_eq!(focused.dispatched, 1);
    assert_eq!(focused.last_action, Some(Action::Custom(3)));
}

#[test]
fn compositor_render_twice_returns_same_contents() {
    let size = Position::new(12, 4);
    let mut compositor = Compositor::new(size);

    let mut frame = Frame::new(size);
    frame.add_layer(VisualLayer::Tiled(VisualNode::Leaf {
        visual: Visual::Text("hello".to_string()),
    }));
    compositor.draw(frame);

    let r1 = compositor.render();
    let active_after_first = compositor.active;
    let r2 = compositor.render();
    let active_after_second = compositor.active;

    assert_eq!(r1, r2);
    // no intervening draw: the second call does not advance the index
    assert_eq!(active_after_first, active_after_second);
    // the drawn text is really in the contents
    assert_eq!(r1.cell_at(0, 0).ch, 'h');
    assert_eq!(r1.cell_at(4, 0).ch, 'o');
    assert_eq!(r1.cell_at(5, 0).ch, ' ');
}

#[test]
fn compositor_draw_then_render_shows_new_contents() {
    let size = Position::new(8, 2);
    let mut compositor = Compositor::new(size);

    let mut frame = Frame::new(size);
    frame.add_layer(VisualLayer::Tiled(VisualNode::Leaf {
        visual: Visual::Text("aa".to_string()),
    }));
    compositor.draw(frame);
    let r1 = compositor.render();
    assert_eq!(r1.cell_at(0, 0).ch, 'a');

    let mut frame = Frame::new(size);
    frame.add_layer(VisualLayer::Tiled(VisualNode::Leaf {
        visual: Visual::Text("bb".to_string()),
    }));
    compositor.draw(frame);
    let r2 = compositor.render();
    assert_eq!(r2.cell_at(0, 0).ch, 'b');
}

#[test]
fn resize_then_render_tick_yields_blank_grid() {
    let mut app = App::new(Position::new(10, 5));

    let step = app.handle_event(Event::Resize(80, 24));
    assert!(step.output.is_none());

    let step = app.handle_event(Event::RenderTick);
    let buffer = step.output.expect("a render tick must emit a grid");
    assert_eq!(buffer.width(), 80);
    assert_eq!(buffer.height(), 24);
    for y in 0..24 {
        for x in 0..80 {
            assert_eq!(buffer.cell_at(x, y), Cell { ch: ' ', bold: false });
        }
    }
}

#[test]
fn quit_event_terminates_within_one_iteration() {
    let mut app = App::new(Position::new(20, 10));
    assert!(!app.should_close);

    // a small dispatch loop over a queue of events
    let events = vec![Event::Quit, Event::AppTick, Event::RenderTick];
    let mut iterations = 0;
    for event in events {
        iterations += 1;
        app.handle_event(event);
        if app.should_close {
            break;
        }
    }
    assert!(app.should_close);
    assert_eq!(iterations, 1);
}

#[test]
fn error_event_is_tolerated_once_then_escalates() {
    let mut app = App::new(Position::new(20, 10));
    app.handle_event(Event::Error);
    assert!(!app.should_close);
    app.handle_event(Event::Error);
    assert!(app.should_close);
}

#[test]
fn key_event_routes_to_focused_component() {
    let key = press('q');
    let mut ids = IdAllocator::new();
    let c = leaf_with_binding(&mut ids, key, Action::Quit, true);

    let mut app = App::new(Position::new(20, 10));
    app.root = Root::new().with_component(c);

    app.handle_event(Event::Key(key));
    assert!(app.should_close);
}

#[test]
fn custom_action_requeues_follow_up() {
    let key = press('p');
    let mut ids = IdAllocator::new();
    let mut c = leaf_with_binding(&mut ids, key, Action::Custom(5), true);
    c.pending = Some(Action::Custom(6));

    let mut app = App::new(Position::new(20, 10));
    app.root = Root::new().with_component(c);

    let step = app.handle_event(Event::Key(key));
    assert_eq!(step.requeue, Some(Action::Custom(6)));
}

#[test]
fn floating_layer_never_corrupts_outside_its_rectangle() {
    let size = Position::new(10, 6);
    let mut buf = CharBuffer::new(size);

    let mut ids = IdAllocator::new();
    let c = Component::new(
        ids.allocate(),
        ComponentKind::Text(TextComponent {
            // enough to fill the whole clipped rectangle
            text: "X".repeat(24),
        }),
    );
    // partially off-grid: must be clipped to the grid
    let layer = Layer::new_floating(c, Rect::new(Position::new(4, 2), Position::new(14, 9)));
    layer.render(&mut buf);

    for y in 0..6 {
        for x in 0..10 {
            let inside = x >= 4 && y >= 2;
            if inside {
                assert_eq!(buf.cell_at(x, y).ch, 'X');
            } else {
                assert_eq!(buf.cell_at(x, y).ch, ' ');
            }
        }
    }
}

#[test]
fn tiled_tree_renders_split_contents() {
    let size = Position::new(10, 1);
    let mut ids = IdAllocator::new();
    let left = Component::new(
        ids.allocate(),
        ComponentKind::Text(TextComponent {
            text: "LLLL".to_string(),
        }),
    );
    let right = Component::new(
        ids.allocate(),
        ComponentKind::Text(TextComponent {
            text: "RRRRRRRRRR".to_string(),
        }),
    );
    let tree = ComponentTreeNode::new_branch(
        vec![
            ComponentTreeNode::new_leaf(left),
            ComponentTreeNode::new_leaf(right),
        ],
        Orientation::Horizontal,
        vec![Constraint::Fixed(4), Constraint::Flexible],
        0,
    )
    .unwrap();
    let root = Root {
        layers: vec![Layer::Tiled(tree)],
    };

    let frame = root_frame(&root, size);
    let buf = frame.render();
    assert_eq!(buf.rows(), vec!["LLLLRRRRRR".to_string()]);
}

#[test]
fn diff_reports_exactly_the_changed_cells() {
    let size = Position::new(6, 2);
    let prev = CharBuffer::new(size);
    let mut cur = CharBuffer::new(size);
    cur.set_cell(1, 0, Cell { ch: 'a', bold: false });
    cur.set_cell(4, 1, Cell { ch: 'b', bold: false });

    match diff(&prev, &cur) {
        Diff::Cells(ps) => {
            assert_eq!(ps, vec![Position::new(1, 0), Position::new(4, 1)]);
        }
        Diff::Full => panic!("equal dimensions must yield a cell diff"),
    }

    // equal grids: nothing changed
    match diff(&cur, &cur) {
        Diff::Cells(ps) => assert!(ps.is_empty()),
        Diff::Full => panic!("equal dimensions must yield a cell diff"),
    }
}

#[test]
fn diff_after_resize_is_full() {
    let prev = CharBuffer::new(Position::new(6, 2));
    let cur = CharBuffer::new(Position::new(8, 2));
    assert_eq!(diff(&prev, &cur), Diff::Full);
}

#[test]
fn render_tick_shows_what_the_leaf_draws() {
    let mut app = App::new(Position::new(8, 2));
    app.add_component(ComponentKind::Text(TextComponent {
        text: "hi".to_string(),
    }));

    let step = app.handle_event(Event::RenderTick);
    let buffer = step.output.expect("a render tick must emit a grid");
    assert_eq!(buffer.rows(), vec!["hi      ".to_string(), "        ".to_string()]);
}

#[test]
fn root_render_paints_live_tree() {
    let mut ids = IdAllocator::new();
    let c = Component::new(
        ids.allocate(),
        ComponentKind::Text(TextComponent {
            text: "live".to_string(),
        }),
    );
    let root = Root::new().with_component(c);
    let mut buf = CharBuffer::new(Position::new(6, 1));
    root.render(&mut buf);
    assert_eq!(buf.rows(), vec!["live  ".to_string()]);
}

#[test]
fn empty_branch_renders_nothing() {
    let mut buf = CharBuffer::new(Position::new(4, 2));
    buf.set_cell(1, 1, Cell { ch: 'k', bold: false });

    let tree = ComponentTreeNode::new();
    tree.render(&mut buf, Rect::new(Position::new(0, 0), Position::new(4, 2)));

    // nothing inside the rectangle was blanked or painted
    assert_eq!(buf.cell_at(1, 1).ch, 'k');
    assert_eq!(buf.cell_at(0, 0).ch, ' ');
}

#[test]
fn root_render_layers_in_order_with_floating_on_top() {
    let mut ids = IdAllocator::new();
    let base = Component::new(
        ids.allocate(),
        ComponentKind::Text(TextComponent {
            text: "B".repeat(12),
        }),
    );
    let overlay = Component::new(
        ids.allocate(),
        ComponentKind::Text(TextComponent {
            text: "FF".to_string(),
        }),
    );
    let root = Root {
        layers: vec![
            Layer::new_tiled(base),
            Layer::new_floating(
                overlay,
                Rect::new(Position::new(1, 0), Position::new(3, 1)),
            ),
        ],
    };

    let mut buf = CharBuffer::new(Position::new(6, 2));
    root.render(&mut buf);
    // the floating layer draws last, over the tiled layer, only inside
    // its own rectangle
    assert_eq!(buf.rows(), vec!["BFFBBB".to_string(), "BBBBBB".to_string()]);
}

#[test]
fn registered_component_is_mounted_as_given() {
    let mut app = App::new(Position::new(8, 2));
    let id = app.add_component(ComponentKind::Text(TextComponent {
        text: "t".to_string(),
    }));
    assert_eq!(app.root.layers.len(), 1);
    match &app.root.layers[0] {
        Layer::Tiled(ComponentTreeNode::Leaf { component }) => {
            assert_eq!(component.id, id);
            match &component.kind {
                ComponentKind::Text(t) => assert_eq!(t.text, "t"),
                _ => panic!("the mounted component must keep the given kind"),
            }
        }
        _ => panic!("registration must mount a tiled leaf"),
    }
}
