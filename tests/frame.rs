use noway::frame::{should_submit, FrameState, RenderItem, FULL_REDRAW_FRAMES};
use noway::geometry::{FixedPoint, Point, Rect, Size};
use noway::state::{CursorStatus, NoWayState};
use noway::window::{WindowData, WindowElement};

fn toplevel(id: u64) -> WindowElement {
    WindowElement::Xdg(WindowData {
        id,
        client: 1,
        size: Size { w: 10, h: 10 },
        alive: true,
        activated: false,
    })
}

#[test]
fn age_is_zero_while_full_redraw_is_owed() {
    let mut frames = FrameState::new();
    assert_eq!(frames.full_redraw, FULL_REDRAW_FRAMES);
    assert_eq!(frames.begin_frame(Some(2)), 0);
    assert_eq!(frames.begin_frame(Some(2)), 0);
    assert_eq!(frames.begin_frame(Some(2)), 0);
    assert_eq!(frames.begin_frame(Some(2)), 2);
    assert_eq!(frames.full_redraw, 0);
    assert_eq!(frames.begin_frame(None), 0);
    assert_eq!(frames.begin_frame(Some(3)), 3);
    frames.reset_buffers();
    assert_eq!(frames.begin_frame(Some(3)), 0);
}

#[test]
fn elements_cursor_first_then_windows_top_first() {
    let mut state = NoWayState::new();
    state.new_toplevel(toplevel(1));
    state.new_toplevel(toplevel(2));
    state.new_toplevel(toplevel(3));
    state.commit_xdg_surface(1, 1, Size { w: 10, h: 10 });
    state.commit_xdg_surface(2, 1, Size { w: 10, h: 10 });
    state.space.relocate(1, Point { x: 5, y: 6 });
    let items = state.output_elements(CursorStatus::Default, Point { x: 9, y: 9 });
    assert_eq!(
        items,
        vec![
            RenderItem::Cursor { location: Point { x: 9, y: 9 } },
            RenderItem::Window { id: 2, location: Point { x: 0, y: 0 } },
            RenderItem::Window { id: 1, location: Point { x: 5, y: 6 } },
        ]
    );
    let items = state.output_elements(CursorStatus::Surface(7), Point { x: 9, y: 9 });
    assert_eq!(items.len(), 2);
}

#[test]
fn window_without_initial_configure_is_not_drawn() {
    let mut state = NoWayState::new();
    state.new_toplevel(toplevel(1));
    let mut frames = FrameState { full_redraw: 0 };
    let plan = state.plan_frame(&mut frames, None, true, Point { x: 0, y: 0 }, 1);
    assert_eq!(plan.elements.len(), 1);
    let r = state.commit_xdg_surface(1, 1, Size { w: 10, h: 10 });
    assert!(r.send_initial_configure);
    let plan = state.plan_frame(&mut frames, None, true, Point { x: 0, y: 0 }, 1);
    assert_eq!(plan.elements.len(), 2);
    assert_eq!(plan.elements[1], RenderItem::Window { id: 1, location: Point { x: 0, y: 0 } });
}

#[test]
fn dead_cursor_surface_falls_back_to_default() {
    let mut state = NoWayState::new();
    let mut frames = FrameState { full_redraw: 0 };
    state.cursor_image(CursorStatus::Surface(5));
    state.pointer_location = FixedPoint { x: 100 * 256, y: 50 * 256 };
    let plan = state.plan_frame(&mut frames, Some(1), true, Point { x: 4, y: 2 }, 2);
    assert_eq!(state.cursor_status, CursorStatus::Surface(5));
    assert!(!plan.show_system_cursor);
    assert_eq!(plan.cursor_position, Point { x: 192, y: 96 });
    assert_eq!(plan.age, 1);
    assert!(plan.elements.is_empty());
    let plan = state.plan_frame(&mut frames, Some(1), false, Point { x: 4, y: 2 }, 2);
    assert_eq!(state.cursor_status, CursorStatus::Default);
    assert!(plan.show_system_cursor);
    assert_eq!(plan.cursor_position, Point { x: 200, y: 100 });
    assert_eq!(plan.elements, vec![RenderItem::Cursor { location: Point { x: 200, y: 100 } }]);
}

#[test]
fn cursor_position_rounds_to_physical() {
    let mut state = NoWayState::new();
    let mut frames = FrameState { full_redraw: 0 };
    state.pointer_location = FixedPoint { x: 10 * 256 + 64, y: 0 };
    let plan = state.plan_frame(&mut frames, None, true, Point { x: 0, y: 0 }, 2);
    // 10.25 * 2 = 20.5, rounded away from zero.
    assert_eq!(plan.cursor_position, Point { x: 21, y: 0 });
    assert_eq!(plan.age, 0);
}

#[test]
fn submit_only_with_damage() {
    assert!(!should_submit(&None));
    assert!(!should_submit(&Some(vec![])));
    let r = Rect { loc: Point { x: 0, y: 0 }, size: Size { w: 1, h: 1 } };
    assert!(should_submit(&Some(vec![r])));
}
