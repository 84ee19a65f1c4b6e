//! Logical coordinates: integer window positions and sizes, and pointer
//! positions in the 24.8 fixed-point format that Wayland uses on the wire.
use vstd::prelude::*;

verus! {

/// Sub-unit steps per logical unit in a pointer position.
pub const FIXED_SCALE: i64 = 256;

/// A position in whole logical units.
#[derive(Clone, Copy, Debug, PartialEq, Eq, Structural)]
pub struct Point {
    pub x: i32,
    pub y: i32,
}

/// A width and height in whole logical units.
#[derive(Clone, Copy, Debug, PartialEq, Eq, Structural)]
pub struct Size {
    pub w: i32,
    pub h: i32,
}

/// A rectangle: a location and a size.
#[derive(Clone, Copy, Debug, PartialEq, Eq, Structural)]
pub struct Rect {
    pub loc: Point,
    pub size: Size,
}

/// A pointer position, in 1/256 of a logical unit on each axis.
#[derive(Clone, Copy, Debug, PartialEq, Eq, Structural)]
pub struct FixedPoint {
    pub x: i32,
    pub y: i32,
}

/// The integer nearest to `v / 256`; halves are rounded away from zero.
pub open spec fn round_fixed_spec(v: int) -> int {
    if v >= 0 {
        (v + 128) / 256
    } else {
        -((-v + 128) / 256)
    }
}

/// `v` brought into the range of `i32`, saturating at either end.
pub open spec fn saturate_i32(v: int) -> int {
    if v > i32::MAX {
        i32::MAX as int
    } else if v < i32::MIN {
        i32::MIN as int
    } else {
        v
    }
}

/// Whether the pointer position `p` lies in the box of `size` placed at `loc`.
pub open spec fn box_contains(loc: Point, size: Size, p: FixedPoint) -> bool {
    &&& loc.x * 256 <= p.x
    &&& p.x < (loc.x + size.w) * 256
    &&& loc.y * 256 <= p.y
    &&& p.y < (loc.y + size.h) * 256
}

/// Rounds a fixed-point quantity to the nearest whole logical unit.
pub fn round_fixed(v: i64) -> (r: i64)
    requires
        -0x1000_0000_0000_0000 <= v <= 0x1000_0000_0000_0000,
    ensures
        r == round_fixed_spec(v as int),
{
    if v >= 0 {
        (v + 128) / 256
    } else {
        -((-v + 128) / 256)
    }
}

/// Brings a value into the range of `i32`.
pub fn saturating_i32(v: i64) -> (r: i32)
    ensures
        r == saturate_i32(v as int),
{
    if v > i32::MAX as i64 {
        i32::MAX
    } else if v < i32::MIN as i64 {
        i32::MIN
    } else {
        v as i32
    }
}

/// Whether the pointer position `p` lies in the box of `size` placed at `loc`.
pub fn box_contains_point(loc: Point, size: Size, p: FixedPoint) -> (r: bool)
    ensures
        r == box_contains(loc, size, p),
{
    let lx = loc.x as i64 * FIXED_SCALE;
    let ly = loc.y as i64 * FIXED_SCALE;
    let rx = (loc.x as i64 + size.w as i64) * FIXED_SCALE;
    let ry = (loc.y as i64 + size.h as i64) * FIXED_SCALE;
    lx <= p.x as i64 && (p.x as i64) < rx && ly <= p.y as i64 && (p.y as i64) < ry
}

} // verus!
