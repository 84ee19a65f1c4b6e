//! Pointer grabs: while one is active, pointer input goes to it instead of
//! the window under the pointer.
use vstd::prelude::*;

use crate::geometry::{
    round_fixed, round_fixed_spec, saturate_i32, saturating_i32, FixedPoint, Point, Size,
};
use crate::surface::{ResizeData, ResizeEdges};

verus! {

/// Linux input code of the left mouse button, the button that grabs track.
pub const BTN_LEFT: u32 = 0x110;

/// A surface that has pointer focus, with the client that owns it.
#[derive(Clone, Copy, Debug, PartialEq, Eq, Structural)]
pub struct PointerFocus {
    pub surface: u64,
    pub client: u64,
}

/// A focus target with the location of its surface.
#[derive(Clone, Copy, Debug, PartialEq, Eq, Structural)]
pub struct FocusAt {
    pub target: PointerFocus,
    pub location: Point,
}

/// Snapshot taken when a grab starts.
#[derive(Clone, Copy, Debug, PartialEq, Eq, Structural)]
pub struct GrabStartData {
    /// What had pointer focus when the grab started.
    pub focus: Option<PointerFocus>,
    /// The button that started the grab.
    pub button: u32,
    /// Pointer position when the grab started.
    pub location: FixedPoint,
    /// Serial of the event that started the grab.
    pub serial: u32,
}

/// Drags a window with the pointer.
#[derive(Clone, Copy, Debug, PartialEq, Eq, Structural)]
pub struct MoveSurfaceGrab {
    pub start_data: GrabStartData,
    /// Identity of the dragged window.
    pub window: u64,
    pub initial_window_location: Point,
}

/// Resizes a window with the pointer.
#[derive(Clone, Copy, Debug, PartialEq, Eq, Structural)]
pub struct ResizeSurfaceGrab {
    pub start_data: GrabStartData,
    /// Identity of the resized window.
    pub window: u64,
    pub edges: ResizeEdges,
    pub initial_window_location: Point,
    pub initial_window_size: Size,
    /// The size last asked of the client.
    pub last_window_size: Size,
}

/// The grab that the pointer is in.
#[derive(Clone, Copy, Debug, PartialEq, Eq, Structural)]
pub enum PointerGrab {
    /// A button is held over a surface; focus stays on it until release.
    Click(GrabStartData),
    Move(MoveSurfaceGrab),
    Resize(ResizeSurfaceGrab),
}

impl PointerGrab {
    pub open spec fn start(self) -> GrabStartData {
        match self {
            PointerGrab::Click(d) => d,
            PointerGrab::Move(g) => g.start_data,
            PointerGrab::Resize(g) => g.start_data,
        }
    }

    pub fn start_data(&self) -> (r: GrabStartData)
        ensures
            r == self.start(),
    {
        match self {
            PointerGrab::Click(d) => *d,
            PointerGrab::Move(g) => g.start_data,
            PointerGrab::Resize(g) => g.start_data,
        }
    }
}

/// Pointer travel since the grab started, rounded to whole units.
pub open spec fn delta_x(start: FixedPoint, p: FixedPoint) -> int {
    round_fixed_spec(p.x - start.x)
}

pub open spec fn delta_y(start: FixedPoint, p: FixedPoint) -> int {
    round_fixed_spec(p.y - start.y)
}

/// Where a move grab puts its window when the pointer is at `p`: the initial
/// location plus the pointer's travel, the sum rounded to whole units.
pub open spec fn move_target(g: MoveSurfaceGrab, p: FixedPoint) -> Point {
    Point {
        x: saturate_i32(
            round_fixed_spec(g.initial_window_location.x * 256 + p.x - g.start_data.location.x),
        ) as i32,
        y: saturate_i32(
            round_fixed_spec(g.initial_window_location.y * 256 + p.y - g.start_data.location.y),
        ) as i32,
    }
}

/// A resized extent: at least 1, and within `i32`.
pub open spec fn clamp_extent(v: int) -> int {
    if v < 1 {
        1
    } else {
        saturate_i32(v)
    }
}

/// The size a resize asks for when the pointer is at `p`. A left (top) edge
/// grows as the pointer moves left (up), a right (bottom) edge as it moves
/// right (down); each axis is treated on its own, and never goes below 1.
pub open spec fn resize_target_size(g: ResizeSurfaceGrab, p: FixedPoint) -> Size {
    let dx = delta_x(g.start_data.location, p);
    let dy = delta_y(g.start_data.location, p);
    let w = if g.edges.left {
        g.initial_window_size.w - dx
    } else if g.edges.right {
        g.initial_window_size.w + dx
    } else {
        g.initial_window_size.w as int
    };
    let h = if g.edges.top {
        g.initial_window_size.h - dy
    } else if g.edges.bottom {
        g.initial_window_size.h + dy
    } else {
        g.initial_window_size.h as int
    };
    Size { w: clamp_extent(w) as i32, h: clamp_extent(h) as i32 }
}

/// Where a window being resized stands once it has `size`: a left (top)
/// edge resize keeps the right (bottom) edge in place; otherwise the initial
/// location holds.
pub open spec fn location_for_size(d: ResizeData, size: Size) -> Point {
    Point {
        x: if d.edges.left {
            saturate_i32(d.initial_window_location.x + (d.initial_window_size.w - size.w)) as i32
        } else {
            d.initial_window_location.x
        },
        y: if d.edges.top {
            saturate_i32(d.initial_window_location.y + (d.initial_window_size.h - size.h)) as i32
        } else {
            d.initial_window_location.y
        },
    }
}

fn travel(from: i32, to: i32) -> (r: i64)
    ensures
        r == round_fixed_spec(to - from),
{
    round_fixed(to as i64 - from as i64)
}

fn moved_coordinate(initial: i32, start: i32, now: i32) -> (r: i32)
    ensures
        r == saturate_i32(round_fixed_spec(initial * 256 + now - start)),
{
    saturating_i32(round_fixed(initial as i64 * 256 + now as i64 - start as i64))
}

fn clamped_extent(v: i64) -> (r: i32)
    ensures
        r == clamp_extent(v as int),
{
    if v < 1 {
        1
    } else {
        saturating_i32(v)
    }
}

impl MoveSurfaceGrab {
    /// Where the dragged window goes when the pointer is at `p`.
    pub fn target_location(&self, p: FixedPoint) -> (r: Point)
        ensures
            r == move_target(*self, p),
    {
        Point {
            x: moved_coordinate(self.initial_window_location.x, self.start_data.location.x, p.x),
            y: moved_coordinate(self.initial_window_location.y, self.start_data.location.y, p.y),
        }
    }
}

impl ResizeSurfaceGrab {
    /// What the resize started from.
    pub fn resize_data(&self) -> (r: ResizeData)
        ensures
            r == (ResizeData {
                edges: self.edges,
                initial_window_location: self.initial_window_location,
                initial_window_size: self.initial_window_size,
            }),
    {
        ResizeData {
            edges: self.edges,
            initial_window_location: self.initial_window_location,
            initial_window_size: self.initial_window_size,
        }
    }

    /// The size asked for when the pointer is at `p`.
    pub fn target_size(&self, p: FixedPoint) -> (r: Size)
        ensures
            r == resize_target_size(*self, p),
    {
        let dx = travel(self.start_data.location.x, p.x);
        let dy = travel(self.start_data.location.y, p.y);
        let init = self.initial_window_size;
        let w: i64 = if self.edges.left {
            init.w as i64 - dx
        } else if self.edges.right {
            init.w as i64 + dx
        } else {
            init.w as i64
        };
        let h: i64 = if self.edges.top {
            init.h as i64 - dy
        } else if self.edges.bottom {
            init.h as i64 + dy
        } else {
            init.h as i64
        };
        Size { w: clamped_extent(w), h: clamped_extent(h) }
    }
}

/// Where a window being resized stands once it has `size`.
pub fn resized_location(d: ResizeData, size: Size) -> (r: Point)
    ensures
        r == location_for_size(d, size),
{
    let init = d.initial_window_location;
    let x = if d.edges.left {
        saturating_i32(init.x as i64 + (d.initial_window_size.w as i64 - size.w as i64))
    } else {
        init.x
    };
    let y = if d.edges.top {
        saturating_i32(init.y as i64 + (d.initial_window_size.h as i64 - size.h as i64))
    } else {
        init.y
    };
    Point { x, y }
}

} // verus!
