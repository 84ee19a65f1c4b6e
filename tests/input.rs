use noway::geometry::{FixedPoint, Point, Size};
use noway::grabs::{PointerGrab, BTN_LEFT};
use noway::input::{axis_frame, AxisAmount, AxisSource, InputEvent};
use noway::state::{FocusChange, InputReply, NoWayState, OutputInfo};
use noway::window::{WindowData, WindowElement};

fn toplevel(id: u64, w: i32, h: i32) -> WindowElement {
    WindowElement::Xdg(WindowData {
        id,
        client: 1,
        size: Size { w, h },
        alive: true,
        activated: false,
    })
}

fn at(x: i32, y: i32) -> FixedPoint {
    FixedPoint { x: x * 256, y: y * 256 }
}

fn none() -> AxisAmount {
    AxisAmount { continuous: None, discrete: Some(0) }
}

#[test]
fn finger_zero_vertical_emits_stop() {
    let f = axis_frame(AxisSource::Finger, 5, none(), none());
    assert!(f.vertical.stop);
    assert!(f.horizontal.stop);
    assert_eq!(f.vertical.value, None);
    let f = axis_frame(
        AxisSource::Finger,
        5,
        AxisAmount { continuous: Some(300), discrete: None },
        none(),
    );
    assert!(f.vertical.stop);
    assert!(!f.horizontal.stop);
    assert_eq!(f.horizontal.value, Some(300));
}

#[test]
fn wheel_zero_vertical_emits_no_stop() {
    let f = axis_frame(AxisSource::Wheel, 5, none(), none());
    assert!(!f.vertical.stop);
    assert!(!f.horizontal.stop);
    assert_eq!(f.vertical.value, None);
}

#[test]
fn discrete_steps_are_scaled() {
    let f = axis_frame(
        AxisSource::Wheel,
        9,
        none(),
        AxisAmount { continuous: None, discrete: Some(-2) },
    );
    assert_eq!(f.vertical.value, Some(-2 * 3 * 256));
    assert_eq!(f.vertical.discrete, Some(-2));
    assert_eq!(f.time, 9);
    assert_eq!(f.source, AxisSource::Wheel);
    let f = axis_frame(
        AxisSource::Wheel,
        9,
        none(),
        AxisAmount { continuous: Some(100), discrete: Some(1) },
    );
    assert_eq!(f.vertical.value, Some(100));
    assert_eq!(f.vertical.discrete, Some(1));
}

fn two_windows() -> NoWayState {
    let mut state = NoWayState::new();
    state.new_toplevel(toplevel(1, 100, 100));
    state.new_toplevel(toplevel(2, 100, 100));
    let w = state.window_for_surface(2).unwrap();
    state.space.map_element(w, Point { x: 200, y: 0 }, false);
    state
}

fn activated(state: &NoWayState) -> Vec<(u64, bool)> {
    state
        .space
        .elements()
        .iter()
        .map(|m| (m.element.id(), m.element.data_of().activated))
        .collect()
}

#[test]
fn press_on_empty_space_clears_focus_and_deactivates() {
    let mut state = two_windows();
    state.pointer_motion(at(50, 50));
    state.pointer_button(BTN_LEFT, true, 1);
    state.pointer_button(BTN_LEFT, false, 2);
    assert_eq!(state.keyboard_focus, Some(1));
    state.pointer_motion(at(150, 50));
    let r = state.pointer_button(BTN_LEFT, true, 3);
    assert_eq!(r.focus_change, FocusChange::Clear);
    assert_eq!(state.keyboard_focus, None);
    assert_eq!(activated(&state), vec![(2, false), (1, false)]);
}

#[test]
fn press_on_window_activates_only_it_and_is_idempotent() {
    let mut state = two_windows();
    state.pointer_motion(at(250, 50));
    let r = state.pointer_button(BTN_LEFT, true, 1);
    assert_eq!(r.focus_change, FocusChange::Focus(2));
    state.pointer_button(BTN_LEFT, false, 2);
    assert_eq!(state.keyboard_focus, Some(2));
    assert_eq!(activated(&state), vec![(1, false), (2, true)]);
    let before = activated(&state);
    state.pointer_button(BTN_LEFT, true, 3);
    state.pointer_button(BTN_LEFT, false, 4);
    assert_eq!(activated(&state), before);
    assert_eq!(state.keyboard_focus, Some(2));
}

#[test]
fn press_during_grab_keeps_focus() {
    let mut state = two_windows();
    state.pointer_motion(at(250, 50));
    state.pointer_button(BTN_LEFT, true, 1);
    state.pointer_motion(at(50, 50));
    let r = state.pointer_button(0x111, true, 2);
    assert_eq!(r.focus_change, FocusChange::Unchanged);
    assert_eq!(state.keyboard_focus, Some(2));
    state.pointer_button(BTN_LEFT, false, 3);
    assert!(matches!(state.grab, Some(PointerGrab::Click(_))));
    state.pointer_button(0x111, false, 4);
    assert!(state.grab.is_none());
}

#[test]
fn motion_focus_follows_pointer_without_grab() {
    let mut state = two_windows();
    let r = state.pointer_motion(at(210, 10));
    let f = r.focus.unwrap();
    assert_eq!(f.target.surface, 2);
    assert_eq!(f.location, Point { x: 200, y: 0 });
    assert_eq!(state.pointer_location, at(210, 10));
    let r = state.pointer_motion(at(150, 10));
    assert!(r.focus.is_none());
}

#[test]
fn click_grab_keeps_motion_on_pressed_surface() {
    let mut state = two_windows();
    state.pointer_motion(at(10, 10));
    state.pointer_button(BTN_LEFT, true, 1);
    let r = state.pointer_motion(at(250, 10));
    assert_eq!(r.focus.unwrap().target.surface, 1);
}

#[test]
fn keyboard_goes_to_focus() {
    let mut state = two_windows();
    let r = state.process_input_event(InputEvent::Keyboard { key: 30, pressed: true, serial: 1, time: 0 });
    assert_eq!(r, InputReply::Key { focus: None });
    state.keyboard_focus = Some(2);
    let r = state.process_input_event(InputEvent::Keyboard { key: 30, pressed: true, serial: 1, time: 0 });
    assert_eq!(r, InputReply::Key { focus: Some(2) });
}

#[test]
fn absolute_motion_uses_first_output() {
    let mut state = two_windows();
    let ev = InputEvent::PointerMotionAbsolute { position: at(10, 10), serial: 1, time: 0 };
    assert_eq!(state.process_input_event(ev), InputReply::Ignored);
    state.map_output(OutputInfo {
        location: Point { x: 200, y: 0 },
        size: Size { w: 800, h: 600 },
        scale: 1,
    });
    match state.process_input_event(ev) {
        InputReply::Motion { location, reply } => {
            assert_eq!(location, at(210, 10));
            assert_eq!(reply.focus.unwrap().target.surface, 2);
        },
        other => panic!("unexpected reply {:?}", other),
    }
}

#[test]
fn dispatch_button_and_axis() {
    let mut state = two_windows();
    state.pointer_motion(at(250, 50));
    let r = state.process_input_event(InputEvent::PointerButton {
        button: BTN_LEFT,
        pressed: true,
        serial: 4,
        time: 0,
    });
    match r {
        InputReply::Button(b) => assert_eq!(b.focus_change, FocusChange::Focus(2)),
        other => panic!("unexpected reply {:?}", other),
    }
    let r = state.process_input_event(InputEvent::PointerAxis {
        source: AxisSource::Finger,
        horizontal: none(),
        vertical: none(),
        time: 3,
    });
    match r {
        InputReply::Axis(f) => assert!(f.vertical.stop),
        other => panic!("unexpected reply {:?}", other),
    }
    let r = state.process_input_event(InputEvent::PointerAxis {
        source: AxisSource::Finger,
        horizontal: none(),
        vertical: AxisAmount { continuous: None, discrete: None },
        time: 3,
    });
    assert_eq!(r, InputReply::Ignored);
    assert_eq!(state.process_input_event(InputEvent::PointerMotion), InputReply::Ignored);
    assert_eq!(state.process_input_event(InputEvent::Other), InputReply::Ignored);
}
