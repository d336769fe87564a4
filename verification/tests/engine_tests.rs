use pelican_ui::constraint::{Area, SizeRequest};
use pelican_ui::event::{Event, MouseEvent, MouseState, ShowKeyboard};
use pelican_ui::field::InputField;
use pelican_ui::fsm::{ButtonFsm, ButtonState};
use pelican_ui::ids::ElementID;
use pelican_ui::linear::{Axis, Linear};
use pelican_ui::overlay::{Offset, Padding, Size, Stack};
use pelican_ui::scroll::ScrollRegion;
use pelican_ui::select::Selectable;
use pelican_ui::style::{
    AvatarIconStyle, ButtonSize, ButtonStyle, ButtonWidth, Circle, Color, GhostButton, ShapeKind,
    TextSize,
};
use pelican_ui::tree::{dispatch, layout, measure, run_cycle, Node, Strategy, Widget};
use pelican_ui::wrap::WrapFlow;

fn mouse(state: MouseState, position: Option<(u32, u32)>) -> Event {
    Event::Mouse(MouseEvent { state, position })
}

fn leaf(tag: u64, widget: Widget) -> Node {
    Node {
        tag,
        strategy: Strategy::Overlay(Stack::default()),
        widget,
        children: Vec::new(),
        areas: Vec::new(),
    }
}

#[test]
fn split_translates_presses_into_child_space() {
    let e = Event::Mouse(MouseEvent { state: MouseState::Pressed, position: Some((15, 15)) });
    let areas = vec![
        Area { offset: (10, 10), size: (20, 20) },
        Area { offset: (100, 100), size: (20, 20) },
    ];
    let subs = e.split(&areas);
    match subs[0] {
        Some(Event::Mouse(m)) => assert_eq!(m.position, Some((5, 5))),
        _ => panic!("the child under the pointer must receive the press"),
    }
    assert!(subs[1].is_none());
}

#[test]
fn split_clears_positions_for_moves_outside() {
    let e = Event::Mouse(MouseEvent { state: MouseState::Moved, position: Some((15, 15)) });
    let areas = vec![Area { offset: (100, 100), size: (20, 20) }];
    let subs = e.split(&areas);
    match subs[0] {
        Some(Event::Mouse(m)) => assert_eq!(m.position, None),
        _ => panic!("a move outside must still arrive, position-cleared"),
    }
}

#[test]
fn split_hits_the_boundary_half_open() {
    let areas = vec![Area { offset: (10, 10), size: (20, 20) }];
    let at = |x: u32, y: u32| {
        Event::Mouse(MouseEvent { state: MouseState::Pressed, position: Some((x, y)) })
            .split(&areas)[0]
            .is_some()
    };
    assert!(at(10, 10));
    assert!(at(29, 29));
    assert!(!at(30, 10));
    assert!(!at(10, 30));
    assert!(!at(9, 15));
}

#[test]
fn split_broadcasts_nonspatial_events() {
    let e = Event::ShowKeyboard(ShowKeyboard(true));
    let areas = vec![
        Area { offset: (0, 0), size: (1, 1) },
        Area { offset: (500, 500), size: (1, 1) },
    ];
    let subs = e.split(&areas);
    assert!(subs.iter().all(|s| s.is_some()));
}

#[test]
fn dispatch_reaches_the_child_under_the_pointer() {
    let child = leaf(1, Widget::Button(ButtonFsm::new(false, false)));
    let root = Node {
        tag: 0,
        strategy: Strategy::Overlay(Stack::default()),
        widget: Widget::Passive,
        children: vec![child],
        areas: vec![Area { offset: (10, 10), size: (20, 20) }],
    };
    let mut queue = Vec::new();
    let mut fired = Vec::new();
    let root = dispatch(root, &mouse(MouseState::Pressed, Some((15, 15))), &mut queue, &mut fired);
    match root.children[0].widget {
        Widget::Button(f) => assert_eq!(f.state, ButtonState::Pressed),
        _ => unreachable!(),
    }
    assert!(fired.is_empty());
    let root = dispatch(root, &mouse(MouseState::Released, Some((15, 15))), &mut queue, &mut fired);
    assert_eq!(fired, vec![1]);
    match root.children[0].widget {
        Widget::Button(f) => assert_eq!(f.state, ButtonState::Hover),
        _ => unreachable!(),
    }
}

#[test]
fn dispatch_skips_children_away_from_the_pointer() {
    let child = leaf(1, Widget::Button(ButtonFsm::new(false, false)));
    let root = Node {
        tag: 0,
        strategy: Strategy::Overlay(Stack::default()),
        widget: Widget::Passive,
        children: vec![child],
        areas: vec![Area { offset: (10, 10), size: (20, 20) }],
    };
    let mut queue = Vec::new();
    let mut fired = Vec::new();
    let root = dispatch(root, &mouse(MouseState::Pressed, Some((90, 90))), &mut queue, &mut fired);
    match root.children[0].widget {
        Widget::Button(f) => assert_eq!(f.state, ButtonState::Default),
        _ => unreachable!(),
    }
}

#[test]
fn raised_events_wait_for_the_next_cycle() {
    let field = leaf(2, Widget::Field(InputField::new(ElementID::from_raw(8), false)));
    let root = Node {
        tag: 0,
        strategy: Strategy::Overlay(Stack::default()),
        widget: Widget::Passive,
        children: vec![field],
        areas: vec![Area { offset: (0, 0), size: (50, 50) }],
    };
    let mut fired = Vec::new();
    let events = vec![mouse(MouseState::Pressed, Some((5, 5)))];
    let (root, next) = run_cycle(root, &events, &mut fired);
    // The focus broadcast and keyboard request were queued, not delivered.
    assert_eq!(next.len(), 2);
    assert!(matches!(next[0], Event::ShowKeyboard(ShowKeyboard(true))));
    assert!(matches!(next[1], Event::InputField(_)));
    let (_, after) = run_cycle(root, &next, &mut fired);
    assert!(after.is_empty());
}

#[test]
fn scroll_regions_follow_wheel_input() {
    let mut region = ScrollRegion::new(
        Axis::Vertical,
        Offset::Start,
        Padding(0, 0, 0, 0),
        pelican_ui::scroll::ScrollAnchor::Start,
    );
    region.content = 500;
    region.viewport = 200;
    let node = Node {
        tag: 0,
        strategy: Strategy::Region(region),
        widget: Widget::Passive,
        children: Vec::new(),
        areas: Vec::new(),
    };
    let mut queue = Vec::new();
    let mut fired = Vec::new();
    let node = dispatch(node, &Event::AdjustScroll(50), &mut queue, &mut fired);
    match node.strategy {
        Strategy::Region(r) => assert_eq!(r.offset, 50),
        _ => unreachable!(),
    }
    let node = dispatch(
        node,
        &mouse(MouseState::Scroll(0, 40), Some((5, 5))),
        &mut queue,
        &mut fired,
    );
    match node.strategy {
        Strategy::Region(r) => assert_eq!(r.offset, 90),
        _ => unreachable!(),
    }
}

#[test]
fn measure_then_layout_resolves_the_tree() {
    let a = leaf(1, Widget::Passive);
    let b = leaf(2, Widget::Passive);
    let a = Node {
        strategy: Strategy::Overlay(Stack(
            Offset::Start,
            Offset::Start,
            Size::Static(30),
            Size::Static(10),
            Padding(0, 0, 0, 0),
        )),
        ..a
    };
    let b = Node {
        strategy: Strategy::Overlay(Stack(
            Offset::Start,
            Offset::Start,
            Size::Static(50),
            Size::Static(10),
            Padding(0, 0, 0, 0),
        )),
        ..b
    };
    let root = Node {
        tag: 0,
        strategy: Strategy::Sequence(Linear::row(10, Offset::Start, Size::Fit, Padding::none())),
        widget: Widget::Passive,
        children: vec![a, b],
        areas: Vec::new(),
    };
    let r = measure(&root);
    assert_eq!(r.max_width(), 90);
    assert_eq!(r.max_height(), 10);
    let root = layout(root, (90, 10));
    assert_eq!(root.areas.len(), 2);
    assert_eq!(root.areas[0], Area { offset: (0, 0), size: (30, 10) });
    assert_eq!(root.areas[1], Area { offset: (40, 0), size: (50, 10) });
    // Resolving again with the same granted box yields the same geometry.
    let again = layout(root, (90, 10));
    assert_eq!(again.areas[0], Area { offset: (0, 0), size: (30, 10) });
    assert_eq!(again.areas[1], Area { offset: (40, 0), size: (50, 10) });
}

#[test]
fn size_requests_of_fixed_children_are_exact() {
    let c = SizeRequest::fixed((30, 10));
    assert_eq!(c.min_width(), 30);
    assert_eq!(c.max_width(), 30);
    assert!(c.min_height() == 10 && c.max_height() == 10);
}

#[test]
fn button_tables_hold_their_numbers() {
    assert_eq!(ButtonSize::Medium.font(), TextSize::Md);
    assert_eq!(ButtonSize::Large.font(), TextSize::Lg);
    assert_eq!(ButtonSize::Medium.icon(), 16);
    assert_eq!(ButtonSize::Large.icon(), 24);
    let (spacing, height, _) = ButtonSize::Large.get();
    assert_eq!((spacing, height), (12, 48));
    assert_eq!(
        ButtonSize::Large.icon_button(ButtonStyle::Secondary),
        (52, 32, 12)
    );
    assert_eq!(
        ButtonSize::Medium.icon_button(ButtonStyle::Tertiary),
        (36, 32, 8)
    );
    assert!(matches!(ButtonWidth::Fill.get(), Size::Fill));
}

#[test]
fn circle_strokes_scale_with_the_diameter() {
    let c = Circle::new(50, Color(1, 2, 3, 255), true);
    assert_eq!(c.kind, ShapeKind::Ellipse);
    assert_eq!(c.stroke, 3);
    assert_eq!(c.size, (50, 50));
    let plain = Circle::new(50, Color(0, 0, 0, 0), false);
    assert_eq!(plain.stroke, 0);
}

#[test]
fn ghost_button_presets_start_in_the_right_state() {
    let nav = GhostButton::navigation(true, false);
    assert_eq!(nav.fsm.state, ButtonState::Selected);
    assert_eq!(nav.style, ButtonStyle::Tertiary);
    let mut pad = GhostButton::keypad(false);
    assert_eq!(pad.fsm.state, ButtonState::Default);
    let _ = pad.handle(&MouseEvent { state: MouseState::Pressed, position: Some((1, 1)) });
    assert_eq!(pad.fsm.state, ButtonState::Pressed);
    let _ = AvatarIconStyle::Brand;
}

#[test]
fn selection_round_trip_through_the_tree() {
    let group = ElementID::from_raw(40);
    let a = leaf(
        1,
        Widget::Chooser(Selectable::with_id(ElementID::from_raw(41), group, true)),
    );
    let b = leaf(
        2,
        Widget::Chooser(Selectable::with_id(ElementID::from_raw(42), group, false)),
    );
    let root = Node {
        tag: 0,
        strategy: Strategy::Overlay(Stack::default()),
        widget: Widget::Passive,
        children: vec![a, b],
        areas: vec![
            Area { offset: (0, 0), size: (10, 10) },
            Area { offset: (20, 0), size: (10, 10) },
        ],
    };
    let mut fired = Vec::new();
    // Tick one: pressing the second chooser only queues the broadcast; the
    // flags are untouched within this tick.
    let events = vec![mouse(MouseState::Pressed, Some((25, 5)))];
    let (root, next) = run_cycle(root, &events, &mut fired);
    assert_eq!(next.len(), 1);
    match (&root.children[0].widget, &root.children[1].widget) {
        (Widget::Chooser(x), Widget::Chooser(y)) => {
            assert!(x.selected && !y.selected);
        },
        _ => unreachable!(),
    }
    assert!(fired.is_empty());
    // Tick two: the broadcast lands everywhere; exactly one member of the
    // group is selected, and the chosen one fires its callback.
    let (root, after) = run_cycle(root, &next, &mut fired);
    assert!(after.is_empty());
    match (&root.children[0].widget, &root.children[1].widget) {
        (Widget::Chooser(x), Widget::Chooser(y)) => {
            assert!(!x.selected && y.selected);
        },
        _ => unreachable!(),
    }
    assert_eq!(fired, vec![2]);
}

#[test]
fn wrap_fill_child_takes_a_whole_line() {
    let flow = WrapFlow::new(4, 6);
    let kids = vec![SizeRequest::fill(), SizeRequest::fixed((30, 10))];
    let areas = flow.build((100, 100), &kids);
    assert_eq!(areas[0].offset, (0, 0));
    assert_eq!(areas[0].size.0, 100);
    // The next child cannot share that line.
    assert_eq!(areas[1].offset.0, 0);
    assert!(areas[1].offset.1 > 0);
}

#[test]
fn press_over_overlapping_children_reaches_only_the_topmost() {
    // Two stacked children both contain the point: declaration order
    // resolves the ambiguity, the last-declared child alone gets the press.
    let e = Event::Mouse(MouseEvent { state: MouseState::Pressed, position: Some((15, 15)) });
    let areas = vec![
        Area { offset: (10, 10), size: (20, 20) },
        Area { offset: (12, 12), size: (20, 20) },
    ];
    let subs = e.split(&areas);
    assert!(subs[0].is_none());
    match subs[1] {
        Some(Event::Mouse(m)) => assert_eq!(m.position, Some((3, 3))),
        _ => panic!("the topmost child must receive the press"),
    }
    // Moves still reach both, so the lower child can leave Hover.
    let mv = Event::Mouse(MouseEvent { state: MouseState::Moved, position: Some((15, 15)) });
    let subs = mv.split(&areas);
    assert!(subs[0].is_some() && subs[1].is_some());
}
