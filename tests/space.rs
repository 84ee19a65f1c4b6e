use noway::geometry::{FixedPoint, Point, Size};
use noway::space::Space;
use noway::window::{WindowData, WindowElement};

fn window(id: u64, w: i32, h: i32) -> WindowElement {
    WindowElement::Xdg(WindowData {
        id,
        client: 1,
        size: Size { w, h },
        alive: true,
        activated: false,
    })
}

fn order(space: &Space) -> Vec<u64> {
    space.elements().iter().map(|m| m.element.id()).collect()
}

fn at(x: i32, y: i32) -> FixedPoint {
    FixedPoint { x: x * 256, y: y * 256 }
}

#[test]
fn paint_order_follows_most_recent_map_or_raise() {
    let mut space = Space::new();
    space.map_element(window(1, 10, 10), Point { x: 0, y: 0 }, true);
    space.map_element(window(2, 10, 10), Point { x: 0, y: 0 }, true);
    space.map_element(window(3, 10, 10), Point { x: 0, y: 0 }, true);
    assert_eq!(order(&space), vec![1, 2, 3]);
    space.raise_element(1, true);
    assert_eq!(order(&space), vec![2, 3, 1]);
    space.map_element(window(2, 10, 10), Point { x: 5, y: 5 }, true);
    assert_eq!(order(&space), vec![3, 1, 2]);
    space.raise_element(2, true);
    assert_eq!(order(&space), vec![3, 1, 2]);
    assert_eq!(space.len(), 3);
}

#[test]
fn raise_of_unmapped_window_does_nothing() {
    let mut space = Space::new();
    space.map_element(window(1, 10, 10), Point { x: 0, y: 0 }, false);
    space.raise_element(9, true);
    assert_eq!(order(&space), vec![1]);
    assert!(!space.elements()[0].element.data_of().activated);
}

#[test]
fn activation_is_exclusive() {
    let mut space = Space::new();
    space.map_element(window(1, 10, 10), Point { x: 0, y: 0 }, true);
    space.map_element(window(2, 10, 10), Point { x: 0, y: 0 }, true);
    let flags: Vec<bool> = space.elements().iter().map(|m| m.element.data_of().activated).collect();
    assert_eq!(flags, vec![false, true]);
    space.raise_element(1, true);
    let flags: Vec<bool> = space.elements().iter().map(|m| m.element.data_of().activated).collect();
    assert_eq!(order(&space), vec![2, 1]);
    assert_eq!(flags, vec![false, true]);
}

#[test]
fn element_under_finds_topmost() {
    let mut space = Space::new();
    space.map_element(window(1, 100, 100), Point { x: 0, y: 0 }, false);
    space.map_element(window(2, 50, 50), Point { x: 25, y: 25 }, false);
    let (w, loc) = space.element_under(at(30, 30)).unwrap();
    assert_eq!(w.id(), 2);
    assert_eq!(loc, Point { x: 25, y: 25 });
    let (w, _) = space.element_under(at(90, 90)).unwrap();
    assert_eq!(w.id(), 1);
    assert!(space.element_under(at(150, 10)).is_none());
    // The right and bottom edges are outside the box.
    assert!(space.element_under(at(100, 50)).is_none());
    assert!(space.element_under(FixedPoint { x: 100 * 256 - 1, y: 0 }).is_some());
}

#[test]
fn element_under_empty_space_is_none() {
    let space = Space::new();
    assert!(space.element_under(at(0, 0)).is_none());
}

#[test]
fn location_lookup() {
    let mut space = Space::new();
    space.map_element(window(4, 10, 10), Point { x: 7, y: -3 }, false);
    assert_eq!(space.element_location(4), Some(Point { x: 7, y: -3 }));
    assert_eq!(space.element_location(5), None);
    space.relocate(4, Point { x: 1, y: 2 });
    assert_eq!(space.element_location(4), Some(Point { x: 1, y: 2 }));
}

#[test]
fn refresh_prunes_dead_windows_in_order() {
    let mut space = Space::new();
    for id in [1u64, 2, 3, 4] {
        space.map_element(window(id, 10, 10), Point { x: 0, y: 0 }, false);
    }
    let mut d = space.window(2).unwrap().data_of();
    d.alive = false;
    space.update_window(2, d);
    let mut d = space.window(4).unwrap().data_of();
    d.alive = false;
    space.update_window(4, d);
    space.refresh();
    assert_eq!(order(&space), vec![1, 3]);
}

#[test]
fn window_element_variants() {
    let x = WindowElement::X11(WindowData {
        id: 8,
        client: 2,
        size: Size { w: 3, h: 4 },
        alive: true,
        activated: false,
    });
    assert!(x.is_x11());
    assert!(!x.is_wayland());
    assert_eq!(x.wl_surface(), Some(8));
    assert_eq!(x.geometry(), Size { w: 3, h: 4 });
    let w = window(9, 10, 10);
    assert!(w.is_wayland());
    assert_eq!(w.surface_under(at(5, 5)), Some((9, Point { x: 0, y: 0 })));
    assert_eq!(w.surface_under(at(10, 5)), None);
    let mut a = w;
    a.set_activate(true);
    assert!(a.data_of().activated);
    assert!(a.is_wayland());
}

#[test]
fn map_without_activation_keeps_place() {
    let mut space = Space::new();
    space.map_element(window(1, 10, 10), Point { x: 0, y: 0 }, false);
    space.map_element(window(2, 10, 10), Point { x: 0, y: 0 }, false);
    assert_eq!(order(&space), vec![1, 2]);
    space.map_element(window(1, 10, 10), Point { x: 40, y: 40 }, false);
    assert_eq!(order(&space), vec![1, 2]);
    assert_eq!(space.element_location(1), Some(Point { x: 40, y: 40 }));
    space.map_element(window(1, 10, 10), Point { x: 40, y: 40 }, true);
    assert_eq!(order(&space), vec![2, 1]);
}
