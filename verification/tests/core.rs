use octyl::action::{Action, Tags};
use octyl::event::{KeyCode, KeyEvent, KeyEventKind, KeyModifiers, TerminalEvent};
use octyl::event::{translate_terminal_event, Event};
use octyl::geometry::{Direction, Orientation, Position, Rect};
use octyl::component::{logger_component, ComponentState, EmptyComponent, MountedComponent};
use octyl::identifier::{Id, IdAllocator};
use octyl::input::{KeyTreeNode, KeymapError, TerminationBehavior};
use octyl::layout::{split_rect, split_sizes, Constraint};

fn press(c: char) -> KeyEvent {
    KeyEvent::new(
        KeyCode::Char(c),
        KeyModifiers {
            shift: false,
            alt: false,
            control: false,
        },
        KeyEventKind::Press,
    )
}

#[test]
fn tags_simple() {
    let tag_string = "foo.bar.baz";

    assert_eq!(
        Tags {
            inner: vec!["foo".to_string(), "bar".to_string(), "baz".to_string()],
        },
        Tags::from_string(tag_string)
    )
}

#[test]
fn tags_empty_labels() {
    assert_eq!(
        Tags {
            inner: vec!["".to_string(), "".to_string()],
        },
        Tags::from_string(".")
    );
    assert_eq!(
        Tags {
            inner: vec!["".to_string()],
        },
        Tags::from_string("")
    );
    assert_eq!(
        Tags {
            inner: vec!["solo".to_string()],
        },
        Tags::from_string("solo")
    );
}

#[test]
fn test_component_id() {
    let mut ids = IdAllocator::new();
    let id1 = ids.allocate();
    let id2 = ids.allocate();
    let id3 = ids.allocate();
    assert_ne!(id1.id, id2.id);
    assert_ne!(id2.id, id3.id);
    assert_ne!(id3.id, id1.id);
}

#[test]
fn keytreenode_simpl() {}

#[test]
fn keymap_binds_and_looks_up() {
    let mut map = KeyTreeNode::new();
    let seq = vec![press('g'), press('d')];
    map.add_map(&seq, Action::Custom(42)).unwrap();

    let node = map.get_action(&seq).expect("bound sequence must resolve");
    assert_eq!(
        node.action,
        Some((Action::Custom(42), TerminationBehavior::Immediate))
    );

    let unbound = vec![press('g'), press('x')];
    assert!(map.get_action(&unbound).is_none());
}

#[test]
fn keymap_rejects_empty_sequence() {
    let mut map = KeyTreeNode::new();
    let empty: Vec<KeyEvent> = vec![];
    assert_eq!(
        map.add_map(&empty, Action::Quit),
        Err(KeymapError::EmptyKey)
    );
}

#[test]
fn keymap_overwrites_single_key_binding() {
    let mut map = KeyTreeNode::new();
    let seq = vec![press('q')];
    map.add_map(&seq, Action::Custom(1)).unwrap();
    map.add_map(&seq, Action::Custom(2)).unwrap();
    let node = map.get_action(&seq).unwrap();
    assert_eq!(
        node.action,
        Some((Action::Custom(2), TerminationBehavior::Immediate))
    );
}

#[test]
fn action_clone_equals_original() {
    let a = Action::Resize(80, 24);
    let b = a.clone();
    assert_eq!(a, b);

    let c = Action::Custom(7);
    let d = c.clone();
    assert_eq!(c, d);
}

#[test]
fn action_variants_never_equal() {
    assert_ne!(Action::Quit, Action::Noop);
    assert_ne!(Action::Tick, Action::RenderTick);
    assert_ne!(Action::Custom(0), Action::Noop);
    assert_ne!(Action::Custom(1), Action::Custom(2));
    assert_ne!(Action::Resize(1, 2), Action::Resize(2, 1));
}

#[test]
fn layout_tiles_exactly_up_to_stress_bound() {
    // Splitting a 640-wide rectangle into n children must tile it exactly:
    // no gap, no overlap, for every n from 0 to 64.
    let rect = Rect::new(Position::new(3, 2), Position::new(643, 12));
    for n in 0..=64usize {
        let mut cs = Vec::new();
        for k in 0..n {
            if k % 2 == 0 {
                cs.push(Constraint::Fixed(4));
            } else {
                cs.push(Constraint::Flexible);
            }
        }
        let rects = split_rect(rect, Orientation::Horizontal, &cs);
        assert_eq!(rects.len(), n);
        if n > 0 {
            assert_eq!(rects[0].corner1.x, rect.corner1.x);
            assert_eq!(rects[n - 1].corner2.x, rect.corner2.x);
            for i in 0..n - 1 {
                // no gap, no overlap: each child starts where the previous ends
                assert_eq!(rects[i].corner2.x, rects[i + 1].corner1.x);
            }
            let total: usize = rects.iter().map(|r| r.width()).sum();
            assert_eq!(total, rect.width());
        }
        for r in &rects {
            assert_eq!(r.corner1.y, rect.corner1.y);
            assert_eq!(r.corner2.y, rect.corner2.y);
        }
    }
}

#[test]
fn layout_fixed_and_flexible_widths() {
    // Two children split horizontally with [Fixed(10), Flexible] inside a
    // 100-wide rect yield child widths of 10 and 90.
    let rect = Rect::new(Position::new(0, 0), Position::new(100, 30));
    let cs = vec![Constraint::Fixed(10), Constraint::Flexible];
    let rects = split_rect(rect, Orientation::Horizontal, &cs);
    assert_eq!(rects.len(), 2);
    assert_eq!(rects[0].width(), 10);
    assert_eq!(rects[1].width(), 90);
    assert_eq!(rects[0].corner2.x, rects[1].corner1.x);
}

#[test]
fn layout_remainder_goes_to_last_flexible() {
    let sizes = split_sizes(
        &vec![
            Constraint::Flexible,
            Constraint::Flexible,
            Constraint::Flexible,
        ],
        100,
    );
    assert_eq!(sizes, vec![33, 33, 34]);

    let sizes = split_sizes(
        &vec![Constraint::Flexible, Constraint::Fixed(10), Constraint::Flexible],
        101,
    );
    assert_eq!(sizes, vec![45, 10, 46]);
}

#[test]
fn layout_vertical_split() {
    let rect = Rect::new(Position::new(0, 0), Position::new(10, 24));
    let cs = vec![Constraint::Fixed(1), Constraint::Flexible];
    let rects = split_rect(rect, Orientation::Vertical, &cs);
    assert_eq!(rects[0].height(), 1);
    assert_eq!(rects[1].height(), 23);
    assert_eq!(rects[0].width(), 10);
    assert_eq!(rects[1].width(), 10);
}

#[test]
fn direction_rotations() {
    assert_eq!(Direction::Up.rotate_left(), Direction::Left);
    assert_eq!(Direction::Up.rotate_right(), Direction::Right);
    assert_eq!(Direction::Left.opposite(), Direction::Right);
    assert_eq!(Direction::Down.opposite().opposite(), Direction::Down);
}

#[test]
fn rect_and_position_measures() {
    let r = Rect::new(Position::new(2, 3), Position::new(12, 8));
    assert_eq!(r.width(), 10);
    assert_eq!(r.height(), 5);
    assert_eq!(Position::new(7, 6).area(), 42);
}

#[test]
fn terminal_event_translation() {
    let quit_chord = KeyEvent::new(
        KeyCode::Char('c'),
        KeyModifiers {
            shift: false,
            alt: false,
            control: true,
        },
        KeyEventKind::Press,
    );
    assert_eq!(
        translate_terminal_event(&TerminalEvent::Key(quit_chord)),
        Some(Event::Quit)
    );

    let plain = press('a');
    assert_eq!(
        translate_terminal_event(&TerminalEvent::Key(plain)),
        Some(Event::Key(plain))
    );
    assert_eq!(
        translate_terminal_event(&TerminalEvent::Resize(80, 24)),
        Some(Event::Resize(80, 24))
    );
    assert_eq!(translate_terminal_event(&TerminalEvent::FocusGained), None);
    assert_eq!(
        translate_terminal_event(&TerminalEvent::Paste("x".to_string())),
        None
    );
}

#[test]
fn tags_empty_has_no_labels() {
    assert_eq!(Tags::empty(), Tags { inner: vec![] });
}

#[test]
fn component_state_fields() {
    let empty = ComponentState::empty(Id::new(3));
    assert_eq!(empty.component_id, Id::new(3));
    assert!(empty.fields.is_none());

    let with_fields = ComponentState::new(Id::new(4), vec![("count".to_string(), 2u64)]);
    assert_eq!(with_fields.fields, Some(vec![("count".to_string(), 2u64)]));
}

#[test]
fn mounted_component_holds_its_state() {
    let mut ids = IdAllocator::new();
    let id = ids.allocate();
    let mounted = MountedComponent::new(id, ComponentState::empty(Id::new(0)));
    assert_eq!(mounted.component_id, id);
}

#[test]
fn empty_component_is_default() {
    assert_eq!(EmptyComponent::default(), EmptyComponent);
}

#[test]
fn logger_component_starts_with_no_lines() {
    let mut ids = IdAllocator::new();
    let c = logger_component(ids.allocate());
    match &c.kind {
        octyl::component::ComponentKind::Logger(lg) => assert_eq!(lg.len(), 0),
        _ => panic!("the logger component must hold a log store"),
    }
}

#[test]
fn layout_tiles_even_when_fixed_sizes_overflow() {
    // fixed demands beyond the extent are clipped; the tiling stays exact
    let sizes = split_sizes(&vec![Constraint::Fixed(200)], 100);
    assert_eq!(sizes, vec![100]);

    let sizes = split_sizes(&vec![Constraint::Fixed(60), Constraint::Fixed(60)], 100);
    assert_eq!(sizes, vec![60, 40]);
    assert_eq!(sizes.iter().sum::<usize>(), 100);
}

#[test]
fn keymap_keeps_unrelated_bindings() {
    let mut map = KeyTreeNode::new();
    map.add_map(&vec![press('a')], Action::Custom(1)).unwrap();
    map.add_map(&vec![press('b')], Action::Custom(2)).unwrap();
    // binding b left a's binding exactly as it was
    let node = map.get_action(&vec![press('a')]).unwrap();
    assert_eq!(
        node.action,
        Some((Action::Custom(1), TerminationBehavior::Immediate))
    );

    // a deeper binding under a shared first key keeps its sibling binding
    map.add_map(&vec![press('g'), press('x')], Action::Custom(3)).unwrap();
    map.add_map(&vec![press('g'), press('y')], Action::Custom(4)).unwrap();
    let node = map.get_action(&vec![press('g'), press('x')]).unwrap();
    assert_eq!(
        node.action,
        Some((Action::Custom(3), TerminationBehavior::Immediate))
    );
}
