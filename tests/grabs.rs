use noway::geometry::{FixedPoint, Point, Size};
use noway::grabs::{GrabStartData, MoveSurfaceGrab, PointerGrab, ResizeSurfaceGrab, BTN_LEFT};
use noway::state::NoWayState;
use noway::surface::{ResizeEdges, ResizeState};
use noway::window::{WindowData, WindowElement};

fn toplevel(id: u64, client: u64, w: i32, h: i32) -> WindowElement {
    WindowElement::Xdg(WindowData {
        id,
        client,
        size: Size { w, h },
        alive: true,
        activated: false,
    })
}

fn at(x: i32, y: i32) -> FixedPoint {
    FixedPoint { x: x * 256, y: y * 256 }
}

fn start(location: FixedPoint) -> GrabStartData {
    GrabStartData { focus: None, button: BTN_LEFT, location, serial: 1 }
}

fn resize_grab(edges: u32, dx: i32, dy: i32) -> (Size, Point) {
    let g = ResizeSurfaceGrab {
        start_data: start(at(100, 100)),
        window: 1,
        edges: ResizeEdges::from_bits(edges),
        initial_window_location: Point { x: 50, y: 50 },
        initial_window_size: Size { w: 200, h: 100 },
        last_window_size: Size { w: 200, h: 100 },
    };
    let size = g.target_size(at(100 + dx, 100 + dy));
    let loc = noway::grabs::resized_location(g.resize_data(), size);
    (size, loc)
}

#[test]
fn resize_left_edge_grows_and_shifts() {
    assert_eq!(resize_grab(4, -20, 0), (Size { w: 220, h: 100 }, Point { x: 30, y: 50 }));
}

#[test]
fn resize_right_edge_keeps_location() {
    assert_eq!(resize_grab(8, 20, 0), (Size { w: 220, h: 100 }, Point { x: 50, y: 50 }));
    assert_eq!(resize_grab(8, -20, 0), (Size { w: 180, h: 100 }, Point { x: 50, y: 50 }));
}

#[test]
fn resize_corner_treats_axes_independently() {
    // Top-left.
    assert_eq!(resize_grab(5, -10, -30), (Size { w: 210, h: 130 }, Point { x: 40, y: 20 }));
    // Bottom-right.
    assert_eq!(resize_grab(10, 10, 30), (Size { w: 210, h: 130 }, Point { x: 50, y: 50 }));
}

#[test]
fn resize_never_below_one_unit() {
    assert_eq!(resize_grab(8, -500, 0).0, Size { w: 1, h: 100 });
    assert_eq!(resize_grab(2, 0, -100).0, Size { w: 200, h: 1 });
    // Left edge dragged past the right one: size 1, right edge kept.
    assert_eq!(resize_grab(4, 300, 0), (Size { w: 1, h: 100 }, Point { x: 249, y: 50 }));
}

#[test]
fn edges_from_protocol_value() {
    let e = ResizeEdges::from_bits(9);
    assert!(e.top && e.right && !e.bottom && !e.left);
    let e = ResizeEdges::from_bits(0);
    assert!(!e.top && !e.right && !e.bottom && !e.left);
}

#[test]
fn move_target_rounds_initial_plus_travel() {
    let g = MoveSurfaceGrab {
        start_data: start(FixedPoint { x: 1000, y: 1000 }),
        window: 1,
        initial_window_location: Point { x: 10, y: 20 },
    };
    // +5 units exactly.
    assert_eq!(g.target_location(FixedPoint { x: 1000 + 5 * 256, y: 1000 }), Point { x: 15, y: 20 });
    // The sum is rounded: 12.5 rounds to 13, and 17.5 to 18.
    assert_eq!(g.target_location(FixedPoint { x: 1000 + 640, y: 1000 - 640 }), Point { x: 13, y: 18 });
    // 10 - 0.5 = 9.5 rounds to 10.
    assert_eq!(g.target_location(FixedPoint { x: 1000 - 128, y: 1000 }), Point { x: 10, y: 20 });
    // +2.49 rounds down.
    assert_eq!(g.target_location(FixedPoint { x: 1000 + 639, y: 1000 }), Point { x: 12, y: 20 });
}

fn state_with_window(loc: Point) -> NoWayState {
    let mut state = NoWayState::new();
    state.new_toplevel(toplevel(1, 10, 200, 100));
    let w = state.window_for_surface(1).unwrap();
    state.space.map_element(w, loc, false);
    state
}

#[test]
fn move_grab_independent_of_intermediate_motion() {
    let mut state = state_with_window(Point { x: 50, y: 50 });
    state.pointer_motion(at(60, 60));
    state.pointer_button(BTN_LEFT, true, 7);
    assert!(state.move_request(1, 7));
    for p in [at(0, 0), at(500, 3), FixedPoint { x: 61 * 256 + 100, y: 900 }] {
        let r = state.pointer_motion(p);
        assert_eq!(r.focus, None);
    }
    state.pointer_motion(FixedPoint { x: 70 * 256 + 130, y: 40 * 256 });
    assert_eq!(state.space.element_location(1), Some(Point { x: 61, y: 30 }));
    state.pointer_button(BTN_LEFT, false, 8);
    assert!(state.grab.is_none());
    state.pointer_motion(at(0, 0));
    assert_eq!(state.space.element_location(1), Some(Point { x: 61, y: 30 }));
}

#[test]
fn grab_request_with_wrong_serial_is_ignored() {
    let mut state = state_with_window(Point { x: 50, y: 50 });
    state.pointer_motion(at(60, 60));
    state.pointer_button(BTN_LEFT, true, 7);
    assert!(state.check_grab(1, 6).is_none());
    assert!(!state.move_request(1, 6));
    assert!(!state.resize_request(1, 6, ResizeEdges::from_bits(8)));
    assert!(matches!(state.grab, Some(PointerGrab::Click(_))));
}

#[test]
fn grab_request_from_other_client_is_ignored() {
    let mut state = state_with_window(Point { x: 50, y: 50 });
    state.new_toplevel(toplevel(2, 11, 10, 10));
    let w = state.window_for_surface(2).unwrap();
    state.space.map_element(w, Point { x: 1000, y: 1000 }, false);
    state.pointer_motion(at(60, 60));
    state.pointer_button(BTN_LEFT, true, 7);
    assert!(state.check_grab(1, 7).is_some());
    assert!(state.check_grab(2, 7).is_none());
    assert!(!state.move_request(2, 7));
}

#[test]
fn grab_request_without_grab_is_ignored() {
    let mut state = state_with_window(Point { x: 50, y: 50 });
    assert!(!state.move_request(1, 0));
    assert!(state.grab.is_none());
}

#[test]
fn press_over_empty_space_records_no_focus() {
    let mut state = state_with_window(Point { x: 50, y: 50 });
    state.pointer_motion(at(5, 5));
    state.pointer_button(BTN_LEFT, true, 3);
    assert!(state.check_grab(1, 3).is_none());
}

#[test]
fn resize_flow_left_edge() {
    let mut state = state_with_window(Point { x: 50, y: 50 });
    state.pointer_motion(at(60, 60));
    state.pointer_button(BTN_LEFT, true, 7);
    assert!(state.resize_request(1, 7, ResizeEdges::from_bits(4)));
    assert!(matches!(state.surface(1).unwrap().resize_state(), ResizeState::Resizing(_)));
    let r = state.pointer_motion(at(40, 60));
    let c = r.configure.unwrap();
    assert_eq!((c.surface, c.size, c.resizing), (1, Size { w: 220, h: 100 }, true));
    let b = state.pointer_button(BTN_LEFT, false, 8);
    let done = b.resize_done.unwrap();
    assert_eq!((done.surface, done.size, done.resizing), (1, Size { w: 220, h: 100 }, false));
    assert!(state.grab.is_none());
    assert!(matches!(
        state.surface(1).unwrap().resize_state(),
        ResizeState::WaitingForCommit(_)
    ));
    let r = state.commit_xdg_surface(1, 10, Size { w: 220, h: 100 });
    assert!(r.finished_resize.is_some());
    assert_eq!(state.surface(1).unwrap().resize_state(), ResizeState::NotResizing);
    assert_eq!(state.space.element_location(1), Some(Point { x: 30, y: 50 }));
    assert_eq!(state.window_for_surface(1).unwrap().geometry(), Size { w: 220, h: 100 });
}

#[test]
fn resize_state_goes_back_only_at_commit() {
    let mut state = state_with_window(Point { x: 50, y: 50 });
    state.pointer_motion(at(60, 60));
    state.pointer_button(BTN_LEFT, true, 7);
    assert!(state.resize_request(1, 7, ResizeEdges::from_bits(8)));
    state.pointer_motion(at(80, 60));
    assert!(matches!(state.surface(1).unwrap().resize_state(), ResizeState::Resizing(_)));
    state.pointer_button(BTN_LEFT, false, 8);
    state.pointer_motion(at(90, 90));
    state.pointer_button(0x111, true, 9);
    state.pointer_button(0x111, false, 10);
    assert!(matches!(
        state.surface(1).unwrap().resize_state(),
        ResizeState::WaitingForCommit(_)
    ));
    state.commit_xdg_surface(1, 10, Size { w: 220, h: 100 });
    assert_eq!(state.surface(1).unwrap().resize_state(), ResizeState::NotResizing);
    assert_eq!(state.space.element_location(1), Some(Point { x: 50, y: 50 }));
}

#[test]
fn dead_window_cancels_grab() {
    let mut state = state_with_window(Point { x: 50, y: 50 });
    state.pointer_motion(at(60, 60));
    state.pointer_button(BTN_LEFT, true, 7);
    assert!(state.move_request(1, 7));
    state.surface_destroyed(1);
    let r = state.pointer_motion(at(100, 100));
    assert_eq!(r.focus, None);
    assert!(state.grab.is_none());
    assert_eq!(state.space.element_location(1), Some(Point { x: 50, y: 50 }));
}

#[test]
fn dead_window_cancels_resize() {
    let mut state = state_with_window(Point { x: 50, y: 50 });
    state.pointer_motion(at(60, 60));
    state.pointer_button(BTN_LEFT, true, 7);
    assert!(state.resize_request(1, 7, ResizeEdges::from_bits(8)));
    state.surface_destroyed(1);
    let r = state.pointer_motion(at(100, 100));
    assert!(r.configure.is_none());
    assert!(state.grab.is_none());
}

#[test]
fn move_target_saturates_at_the_coordinate_range() {
    let g = MoveSurfaceGrab {
        start_data: start(at(0, 0)),
        window: 1,
        initial_window_location: Point { x: i32::MAX - 1, y: i32::MIN + 1 },
    };
    assert_eq!(
        g.target_location(at(5, -5)),
        Point { x: i32::MAX, y: i32::MIN }
    );
}

#[test]
fn resize_size_saturates_at_the_largest_extent() {
    let g = ResizeSurfaceGrab {
        start_data: start(at(0, 0)),
        window: 1,
        edges: ResizeEdges::from_bits(8),
        initial_window_location: Point { x: 0, y: 0 },
        initial_window_size: Size { w: i32::MAX - 2, h: 10 },
        last_window_size: Size { w: i32::MAX - 2, h: 10 },
    };
    assert_eq!(g.target_size(at(100, 0)), Size { w: i32::MAX, h: 10 });
}

#[test]
fn release_after_window_death_ends_resize_without_change() {
    let mut state = state_with_window(Point { x: 50, y: 50 });
    state.pointer_motion(at(60, 60));
    state.pointer_button(BTN_LEFT, true, 7);
    assert!(state.resize_request(1, 7, ResizeEdges::from_bits(4)));
    state.surface_destroyed(1);
    let b = state.pointer_button(BTN_LEFT, false, 8);
    assert!(b.resize_done.is_none());
    assert!(state.grab.is_none());
    assert!(matches!(state.surface(1).unwrap().resize_state(), ResizeState::Resizing(_)));
    assert_eq!(state.space.element_location(1), Some(Point { x: 50, y: 50 }));
}
