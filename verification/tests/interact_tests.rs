use pelican_ui::editor::TextEditor;
use pelican_ui::event::{
    Event, InputFieldEvent, Key, MouseEvent, MouseState, NamedKey, SelectableEvent, ShowKeyboard,
    SliderEvent,
};
use pelican_ui::field::{InputContent, InputField, InputState};
use pelican_ui::fsm::{replay, ButtonFsm, ButtonState, Slider, TapGesture, TapOutcome, Toggle};
use pelican_ui::ids::ElementID;
use pelican_ui::navigator::desktop_navigator;
use pelican_ui::pages::{apply_navigation, KeyboardVisibility, NavigationEvent, Pages};
use pelican_ui::select::{broadcast_select, RadioSelector, Selectable};

fn press_inside(x: u32, y: u32) -> MouseEvent {
    MouseEvent { state: MouseState::Pressed, position: Some((x, y)) }
}

fn release_inside(x: u32, y: u32) -> MouseEvent {
    MouseEvent { state: MouseState::Released, position: Some((x, y)) }
}

fn move_outside() -> MouseEvent {
    MouseEvent { state: MouseState::Moved, position: None }
}

fn move_inside(x: u32, y: u32) -> MouseEvent {
    MouseEvent { state: MouseState::Moved, position: Some((x, y)) }
}

#[test]
fn button_press_then_release_fires_once_desktop() {
    // Default, press inside: Pressed, nothing fired yet; release inside:
    // fires exactly once and lands in Hover on desktop.
    let mut b = ButtonFsm::new(false, false);
    assert!(!b.handle(&press_inside(5, 5)));
    assert_eq!(b.state, ButtonState::Pressed);
    assert!(b.handle(&release_inside(5, 5)));
    assert_eq!(b.state, ButtonState::Hover);
    // The next release fires nothing: once per gesture.
    assert!(!b.handle(&release_inside(5, 5)));
}

#[test]
fn button_press_then_release_fires_once_mobile() {
    let mut b = ButtonFsm::new(false, true);
    assert!(!b.handle(&press_inside(5, 5)));
    assert_eq!(b.state, ButtonState::Pressed);
    assert!(b.handle(&release_inside(5, 5)));
    assert_eq!(b.state, ButtonState::Default);
}

#[test]
fn button_leaving_bounds_cancels_the_gesture() {
    let mut b = ButtonFsm::new(false, false);
    b.handle(&press_inside(5, 5));
    assert!(!b.handle(&move_outside()));
    assert_eq!(b.state, ButtonState::Default);
    assert!(!b.handle(&release_inside(5, 5)));
}

#[test]
fn button_hover_transitions_follow_the_table() {
    let mut b = ButtonFsm::new(false, false);
    b.handle(&move_inside(5, 5));
    assert_eq!(b.state, ButtonState::Hover);
    b.handle(&move_outside());
    assert_eq!(b.state, ButtonState::Default);
    // Mobile never hovers.
    let mut m = ButtonFsm::new(false, true);
    m.handle(&move_inside(5, 5));
    assert_eq!(m.state, ButtonState::Default);
}

#[test]
fn disabled_button_never_fires() {
    let mut b = ButtonFsm::new(true, false);
    assert!(!b.handle(&press_inside(5, 5)));
    assert!(!b.handle(&release_inside(5, 5)));
    assert_eq!(b.state, ButtonState::Disabled);
    b.disable(false);
    assert_eq!(b.state, ButtonState::Default);
}

#[test]
fn replay_is_deterministic() {
    let seq = vec![
        move_inside(3, 3),
        press_inside(3, 3),
        release_inside(3, 3),
        press_inside(3, 3),
        move_outside(),
        release_inside(3, 3),
    ];
    let a = replay(ButtonState::Default, &seq, false);
    let b = replay(ButtonState::Default, &seq, false);
    assert_eq!(a, b);
    assert_eq!(a.1, 1);
    assert_eq!(a.0, ButtonState::Default);
}

#[test]
fn selection_broadcast_is_mutually_exclusive() {
    let g = ElementID::from_raw(99);
    let mut members = vec![
        Selectable::with_id(ElementID::from_raw(1), g, true),
        Selectable::with_id(ElementID::from_raw(2), g, true),
        Selectable::with_id(ElementID::from_raw(3), g, false),
    ];
    broadcast_select(&mut members, &SelectableEvent(ElementID::from_raw(2), g));
    let selected: Vec<u128> = members
        .iter()
        .filter(|m| m.selected)
        .map(|m| m.id.raw)
        .collect();
    assert_eq!(selected, vec![2]);
}

#[test]
fn selection_broadcast_ignores_other_groups() {
    let g = ElementID::from_raw(7);
    let other = ElementID::from_raw(8);
    let mut members = vec![Selectable::with_id(ElementID::from_raw(1), other, true)];
    broadcast_select(&mut members, &SelectableEvent(ElementID::from_raw(1), g));
    assert!(members[0].selected);
}

#[test]
fn clicking_a_selectable_broadcasts_its_identity() {
    let g = ElementID::from_raw(4);
    let s = Selectable::with_id(ElementID::from_raw(11), g, false);
    let ev = s.handle(&press_inside(1, 1)).expect("press inside must broadcast");
    assert_eq!(ev.0.raw, 11);
    assert_eq!(ev.1.raw, 4);
    assert!(s.handle(&move_outside()).is_none());
}

#[test]
fn radio_selector_starts_with_one_selected() {
    let radio = RadioSelector::new(3, 1);
    let flags: Vec<bool> = radio.items.iter().map(|m| m.selected).collect();
    assert_eq!(flags, vec![false, true, false]);
    let picked: Vec<bool> = {
        let mut r = radio;
        let first = r.items[0];
        r.apply(&SelectableEvent(first.id, first.group));
        r.items.iter().map(|m| m.selected).collect()
    };
    assert_eq!(picked, vec![true, false, false]);
}

#[test]
fn input_fields_swap_focus_by_broadcast() {
    // Field A and B, no shared group: clicking A focuses A and leaves B at
    // rest; clicking B focuses B and A relinquishes.
    let mut a = InputField::new(ElementID::from_raw(1), false);
    let mut b = InputField::new(ElementID::from_raw(2), false);
    let (kb, bc) = a.handle(&press_inside(2, 2));
    assert!(kb);
    let bc = bc.expect("selecting a field must broadcast");
    a.apply_focus(&bc);
    b.apply_focus(&bc);
    assert_eq!(a.state, InputState::Focus);
    assert_eq!(b.state, InputState::Default);

    let (_, bc2) = b.handle(&press_inside(2, 2));
    let bc2 = bc2.expect("selecting a field must broadcast");
    a.apply_focus(&bc2);
    b.apply_focus(&bc2);
    assert_eq!(a.state, InputState::Default);
    assert_eq!(b.state, InputState::Focus);
}

#[test]
fn errored_field_relinquishes_focus_to_error() {
    let mut a = InputField::new(ElementID::from_raw(1), false);
    a.error(true);
    assert_eq!(a.state, InputState::Error);
    // Clicking an errored field focuses it without clearing the flag.
    let _ = a.handle(&press_inside(2, 2));
    assert_eq!(a.state, InputState::Focus);
    // Another field is chosen: A falls back to Error, not Default.
    a.apply_focus(&InputFieldEvent::Select(ElementID::from_raw(2)));
    assert_eq!(a.state, InputState::Error);
}

#[test]
fn field_hover_rests_by_error_flag() {
    let mut f = InputField::new(ElementID::from_raw(3), false);
    let _ = f.handle(&move_inside(2, 2));
    assert_eq!(f.state, InputState::Hover);
    let _ = f.handle(&move_outside());
    assert_eq!(f.state, InputState::Default);
}

#[test]
fn toggle_flips_on_press() {
    let mut t = Toggle::new(false);
    assert_eq!(t.handle(&press_inside(1, 1)), Some(true));
    assert_eq!(t.handle(&press_inside(1, 1)), Some(false));
    assert_eq!(t.handle(&move_outside()), None);
    assert!(!t.on);
}

#[test]
fn slider_reports_before_reclamping() {
    // Every gesture event runs the callback with the value standing before
    // the event re-clamps it; a drag start additionally pulses the haptic.
    let mut s = Slider::new(40, 100);
    assert_eq!(s.handle(&SliderEvent::Start(70)), (40, true));
    assert_eq!(s.value, 70);
    assert_eq!(s.handle(&SliderEvent::Moved(250)), (70, false));
    assert_eq!(s.value, 100);
    assert_eq!(s.handle(&SliderEvent::Moved(30)), (100, false));
    assert_eq!(s.value, 30);
}

#[test]
fn tap_gesture_reemits_short_releases() {
    let mut g = TapGesture::new();
    assert_eq!(g.handle(&press_inside(10, 10)), TapOutcome::Swallow);
    assert_eq!(g.handle(&release_inside(10, 13)), TapOutcome::Reemit((10, 13)));
    assert_eq!(g.handle(&press_inside(10, 10)), TapOutcome::Swallow);
    assert_eq!(g.handle(&release_inside(10, 40)), TapOutcome::Swallow);
    assert_eq!(g.handle(&move_inside(5, 5)), TapOutcome::Pass);
}

#[test]
fn editor_applies_each_key() {
    let mut ed = TextEditor::new(vec!['a', 'b']);
    ed.set_cursor(1);
    ed.apply_edit(&Key::Character('x'));
    assert_eq!(ed.content, vec!['a', 'x', 'b']);
    assert_eq!(ed.cursor, 2);
    ed.apply_edit(&Key::Named(NamedKey::Enter));
    assert_eq!(ed.content, vec!['a', 'x', '\n', 'b']);
    assert_eq!(ed.cursor, 3);
    // Backspace removes the character at the cursor index and steps back.
    ed.apply_edit(&Key::Named(NamedKey::Backspace));
    assert_eq!(ed.content, vec!['a', 'x', '\n']);
    assert_eq!(ed.cursor, 2);
    ed.apply_edit(&Key::Named(NamedKey::Space));
    assert_eq!(ed.content, vec!['a', 'x', ' ', '\n']);
}

#[test]
fn editor_keeps_the_deliberate_edge_rules() {
    // Backspace removes at the cursor: on "abc" with the cursor at 2 the
    // 'c' goes and the cursor steps back to 1.
    let mut ed = TextEditor::new(vec!['a', 'b', 'c']);
    ed.set_cursor(2);
    ed.apply_edit(&Key::Named(NamedKey::Backspace));
    assert_eq!(ed.content, vec!['a', 'b']);
    assert_eq!(ed.cursor, 1);
    // At the start it removes the first character and stays put.
    let mut front = TextEditor::new(vec!['a', 'b']);
    front.set_cursor(0);
    front.apply_edit(&Key::Named(NamedKey::Backspace));
    assert_eq!(front.content, vec!['b']);
    assert_eq!(front.cursor, 0);
    // A one-character buffer clears outright, and an empty buffer is safe.
    let mut one = TextEditor::new(vec!['z']);
    one.apply_edit(&Key::Named(NamedKey::Backspace));
    assert_eq!(one.content, Vec::<char>::new());
    one.apply_edit(&Key::Named(NamedKey::Backspace));
    assert_eq!(one.content, Vec::<char>::new());
}

#[test]
fn page_stack_pushes_and_pops_through_history() {
    let roots = vec![String::from("home"), String::from("profile")];
    let mut pages = Pages::new(roots);
    pages.push(5);
    pages.push(6);
    assert_eq!(pages.overlay, Some(6));
    pages.pop();
    assert_eq!(pages.overlay, Some(5));
    pages.pop();
    assert_eq!(pages.overlay, None);
    pages.pop();
    assert_eq!(pages.overlay, None);
}

#[test]
fn page_stack_switches_roots_by_label() {
    let roots = vec![String::from("home"), String::from("profile")];
    let mut pages = Pages::new(roots);
    pages.push(9);
    let label = String::from("profile");
    pages.root(Some(&label));
    assert_eq!(pages.active_root, 1);
    assert_eq!(pages.overlay, None);
    assert!(pages.history.is_empty());
    let unknown = String::from("missing");
    pages.root(Some(&unknown));
    assert_eq!(pages.active_root, 1);
}

#[test]
fn navigation_hides_the_mobile_navigator_on_root_switch() {
    let roots = vec![String::from("home"), String::from("feed")];
    let mut pages = Pages::new(roots);
    let visible = apply_navigation(
        &mut pages,
        &NavigationEvent::Root(String::from("feed")),
        true,
        0,
    );
    assert!(!visible);
    assert_eq!(pages.active_root, 1);
    let visible = apply_navigation(&mut pages, &NavigationEvent::Push(Some(3)), true, 0);
    assert!(visible);
    assert_eq!(pages.overlay, Some(3));
    let visible = apply_navigation(
        &mut pages,
        &NavigationEvent::Error(String::from("boom")),
        false,
        77,
    );
    assert!(visible);
    assert_eq!(pages.overlay, Some(77));
    let _ = apply_navigation(&mut pages, &NavigationEvent::Pop, false, 77);
    assert_eq!(pages.overlay, Some(3));
    let _ = apply_navigation(&mut pages, &NavigationEvent::Reset, false, 77);
    assert_eq!(pages.overlay, None);
}

#[test]
fn fresh_identities_come_from_the_generator() {
    let a = ElementID::new();
    let b = ElementID::new();
    // Correlation is by equality only; a fresh id correlates with itself.
    assert_eq!(a, a);
    let _ = b;
    let ev = Event::Selectable(SelectableEvent(a, b));
    match ev {
        Event::Selectable(SelectableEvent(x, _)) => assert_eq!(x, a),
        _ => unreachable!(),
    }
}

#[test]
fn desktop_navigator_partitions_by_avatar() {
    let flags = vec![false, true, false, true];
    let wiring = desktop_navigator(&flags);
    assert_eq!(wiring.buttons.len(), 4);
    assert_eq!(wiring.top, vec![0, 2]);
    assert_eq!(wiring.bottom, vec![1, 3]);
    let selected: Vec<bool> = wiring.buttons.iter().map(|b| b.selected).collect();
    assert_eq!(selected, vec![true, false, false, false]);
    assert!(wiring
        .buttons
        .iter()
        .all(|b| b.group == wiring.buttons[0].group));
}

#[test]
fn input_content_shows_placeholder_only_when_empty_and_blurred() {
    let mut c = InputContent::new(Vec::new(), false);
    assert_eq!(c.display_flags(), (false, true));
    c.set_focus(true);
    assert_eq!(c.display_flags(), (true, false));
    c.editor.apply_edit(&Key::Character('h'));
    c.set_focus(false);
    assert_eq!(c.display_flags(), (true, false));
    assert!(!c.submit());
}

#[test]
fn keyboard_hides_on_navigation() {
    let mut kb = KeyboardVisibility::new();
    assert!(!kb.shown);
    kb.on_show_keyboard(&ShowKeyboard(true));
    assert!(kb.shown);
    kb.on_navigation();
    assert!(!kb.shown);
    kb.on_show_keyboard(&ShowKeyboard(false));
    assert!(!kb.shown);
}

#[test]
fn cursor_shows_exactly_while_focused() {
    let mut c = InputContent::new(vec!['h', 'i'], false);
    assert!(!c.cursor_shown());
    c.set_focus(true);
    assert!(c.cursor_shown());
    c.set_focus(false);
    assert!(!c.cursor_shown());
}
