use noway::geometry::{Point, Size};
use noway::state::NoWayState;
use noway::surface::{ConfigureStage, DecorationMode, ResizeState, SurfaceState};
use noway::window::{WindowData, WindowElement};

fn toplevel(id: u64, client: u64) -> WindowElement {
    WindowElement::Xdg(WindowData {
        id,
        client,
        size: Size { w: 200, h: 100 },
        alive: true,
        activated: false,
    })
}

#[test]
fn exactly_one_initial_configure() {
    let mut state = NoWayState::new();
    state.new_toplevel(toplevel(1, 10));
    let mut sent: u32 = 0;
    for _ in 0..5 {
        let r = state.commit_xdg_surface(1, 10, Size { w: 200, h: 100 });
        if r.send_initial_configure {
            sent += 1;
        }
    }
    assert_eq!(sent, 1);
    assert_eq!(state.surface(1).unwrap().stage, ConfigureStage::Committed);
}

#[test]
fn first_commit_sends_configure_then_stage_advances() {
    let mut state = NoWayState::new();
    state.new_toplevel(toplevel(1, 10));
    assert_eq!(state.surface(1).unwrap().stage, ConfigureStage::Uninitialized);
    let r = state.commit_xdg_surface(1, 10, Size { w: 200, h: 100 });
    assert!(r.send_initial_configure);
    assert_eq!(state.surface(1).unwrap().stage, ConfigureStage::ConfigureSent);
    assert!(state.surface(1).unwrap().data.is_some());
    let r = state.commit_xdg_surface(1, 10, Size { w: 200, h: 100 });
    assert!(!r.send_initial_configure);
    assert_eq!(state.surface(1).unwrap().stage, ConfigureStage::Committed);
}

#[test]
fn unmapped_surface_gets_no_initial_configure() {
    let mut state = NoWayState::new();
    let r = state.commit_xdg_surface(5, 3, Size { w: 1, h: 1 });
    assert!(!r.send_initial_configure);
    let rec = state.surface(5).unwrap();
    assert_eq!(rec.client, 3);
    assert_eq!(rec.stage, ConfigureStage::Uninitialized);
    assert_eq!(rec.resize_state(), ResizeState::NotResizing);
}

#[test]
fn decoration_before_initial_configure_is_folded_in() {
    let mut state = NoWayState::new();
    state.new_toplevel(toplevel(1, 10));
    state.new_decoration(1);
    assert_eq!(state.surface(1).unwrap().pending_decoration, Some(DecorationMode::ClientSide));
    assert!(!state.request_mode(1, DecorationMode::ServerSide));
    assert_eq!(state.surface(1).unwrap().pending_decoration, Some(DecorationMode::ServerSide));
    let r = state.commit_xdg_surface(1, 10, Size { w: 200, h: 100 });
    assert!(r.send_initial_configure);
    assert!(state.request_mode(1, DecorationMode::ServerSide));
    assert!(state.unset_mode(1));
    assert_eq!(state.surface(1).unwrap().pending_decoration, Some(DecorationMode::ClientSide));
}

#[test]
fn decoration_request_for_unknown_surface() {
    let mut state = NoWayState::new();
    assert!(!state.request_mode(42, DecorationMode::ServerSide));
    assert!(!state.unset_mode(42));
    assert!(state.surface(42).is_none());
}

#[test]
fn surface_record_commit_alone() {
    let mut rec = SurfaceState::new(3, 4);
    let r = rec.commit(true);
    assert!(r.send_initial_configure);
    assert_eq!(r.finished_resize, None);
    let r = rec.commit(true);
    assert!(!r.send_initial_configure);
}

#[test]
fn commit_updates_window_size() {
    let mut state = NoWayState::new();
    state.new_toplevel(toplevel(1, 10));
    state.commit_xdg_surface(1, 10, Size { w: 640, h: 480 });
    assert_eq!(state.window_for_surface(1).unwrap().geometry(), Size { w: 640, h: 480 });
    assert_eq!(state.space.element_location(1), Some(Point { x: 0, y: 0 }));
}

#[test]
fn destroyed_surface_is_pruned_on_refresh() {
    let mut state = NoWayState::new();
    state.new_toplevel(toplevel(1, 10));
    state.new_toplevel(toplevel(2, 10));
    state.surface_destroyed(1);
    assert!(!state.window_for_surface(1).unwrap().alive());
    state.refresh();
    assert!(state.window_for_surface(1).is_none());
    assert!(state.window_for_surface(2).is_some());
}
