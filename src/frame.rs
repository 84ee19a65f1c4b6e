//! Frame composition decisions: the cursor to draw and where, the ordered
//! list of elements, the buffer age to render against, and whether to submit.
use vstd::prelude::*;

use crate::geometry::{
    round_fixed, round_fixed_spec, saturate_i32, saturating_i32, FixedPoint, Point, Rect,
};
use crate::space::{id_of, MappedWindow};
use crate::state::{surface_index, CursorStatus, NoWayState};
use crate::surface::{ConfigureStage, SurfaceState};

verus! {

/// Frames drawn whole after the backend's buffers were reset.
pub const FULL_REDRAW_FRAMES: u8 = 4;

/// An element of a frame.
#[derive(Clone, Copy, Debug, PartialEq, Eq, Structural)]
pub enum RenderItem {
    /// The compositor's cursor, at a physical position.
    Cursor { location: Point },
    /// A window at its logical location.
    Window { id: u64, location: Point },
}

/// What one frame of an output is made of.
#[derive(Debug)]
pub struct FramePlan {
    /// Buffer age to render against; 0 redraws everything.
    pub age: usize,
    /// Elements, topmost first.
    pub elements: Vec<RenderItem>,
    /// Whether the backend shows its own cursor.
    pub show_system_cursor: bool,
    /// Where the cursor image is painted, in physical units.
    pub cursor_position: Point,
}

/// Per-output frame bookkeeping.
#[derive(Clone, Copy, Debug, PartialEq, Eq, Structural)]
pub struct FrameState {
    /// Frames still to be drawn whole.
    pub full_redraw: u8,
}

/// The cursor after the liveness check: a cursor surface that is gone
/// gives way to the default cursor.
pub open spec fn checked_cursor(status: CursorStatus, surface_alive: bool) -> CursorStatus {
    match status {
        CursorStatus::Surface(_) => if surface_alive {
            status
        } else {
            CursorStatus::Default
        },
        CursorStatus::Default => CursorStatus::Default,
    }
}

/// Where the cursor image is painted: the pointer less the hotspot, scaled
/// to physical units and rounded.
pub open spec fn cursor_paint_position(p: FixedPoint, hotspot: Point, scale: u8) -> Point {
    Point {
        x: saturate_i32(round_fixed_spec((p.x - hotspot.x * 256) * scale)) as i32,
        y: saturate_i32(round_fixed_spec((p.y - hotspot.y * 256) * scale)) as i32,
    }
}

/// Whether surface `id` may be drawn: its initial configure was sent.
pub open spec fn configured(ss: Seq<SurfaceState>, id: u64) -> bool {
    surface_index(ss, id) >= 0 && !(ss[surface_index(ss, id)].stage is Uninitialized)
}

/// The windows among the top `n` that may be drawn, as frame elements,
/// most recently raised first.
pub open spec fn window_items(s: Seq<MappedWindow>, ss: Seq<SurfaceState>, n: int) -> Seq<
    RenderItem,
>
    decreases n,
{
    if n <= 0 {
        Seq::empty()
    } else {
        let m = s[s.len() - n];
        let rest = window_items(s, ss, n - 1);
        if configured(ss, id_of(m)) {
            rest.push(RenderItem::Window { id: id_of(m), location: m.location })
        } else {
            rest
        }
    }
}

/// The frame's elements: the default cursor first, unless a client surface
/// serves as cursor, then the windows that may be drawn.
pub open spec fn frame_elements(
    s: Seq<MappedWindow>,
    ss: Seq<SurfaceState>,
    cursor: CursorStatus,
    at: Point,
) -> Seq<RenderItem> {
    match cursor {
        CursorStatus::Default => seq![RenderItem::Cursor { location: at }] + window_items(
            s,
            ss,
            s.len() as int,
        ),
        CursorStatus::Surface(_) => window_items(s, ss, s.len() as int),
    }
}

/// The buffer age to render against: 0 while a full redraw is owed or when
/// the backend knows no age.
pub open spec fn frame_age(full_redraw: u8, buffer_age: Option<usize>) -> usize {
    if full_redraw > 0 {
        0
    } else {
        match buffer_age {
            Some(a) => a,
            None => 0,
        }
    }
}

fn paint_coordinate(p: i32, hotspot: i32, scale: u8) -> (r: i32)
    ensures
        r == saturate_i32(round_fixed_spec((p - hotspot * 256) * scale)),
{
    let d: i64 = p as i64 - hotspot as i64 * 256;
    assert(-0x100_0000_0000_0000 <= d * scale <= 0x100_0000_0000_0000) by (nonlinear_arith)
        requires
            -0x100_0000_0000 <= d <= 0x100_0000_0000,
            0 <= scale < 256,
    ;
    let v = d * scale as i64;
    saturating_i32(round_fixed(v))
}

/// Whether a rendered frame is submitted: only when it has damage.
pub fn should_submit(damage: &Option<Vec<Rect>>) -> (r: bool)
    ensures
        r == (match damage {
            Some(d) => d@.len() > 0,
            None => false,
        }),
{
    match damage {
        Some(d) => d.len() > 0,
        None => false,
    }
}

impl FrameState {
    /// A new output is drawn whole for its first frames.
    pub fn new() -> (r: FrameState)
        ensures
            r.full_redraw == FULL_REDRAW_FRAMES,
    {
        FrameState { full_redraw: FULL_REDRAW_FRAMES }
    }

    /// The backend's buffers changed: the next frames are drawn whole.
    pub fn reset_buffers(&mut self)
        ensures
            final(self).full_redraw == FULL_REDRAW_FRAMES,
    {
        self.full_redraw = FULL_REDRAW_FRAMES;
    }

    /// Starts a frame: one owed full redraw is used up, and the age to
    /// render against is returned.
    pub fn begin_frame(&mut self, buffer_age: Option<usize>) -> (age: usize)
        ensures
            final(self).full_redraw == (if old(self).full_redraw > 0 {
                old(self).full_redraw - 1
            } else {
                0
            }),
            age == frame_age(final(self).full_redraw, buffer_age),
    {
        self.full_redraw = self.full_redraw.saturating_sub(1);
        if self.full_redraw > 0 {
            0
        } else {
            match buffer_age {
                Some(a) => a,
                None => 0,
            }
        }
    }
}

impl NoWayState {
    /// The frame's elements: the default cursor at `cursor_position` first,
    /// unless a client surface serves as cursor, then the windows whose
    /// initial configure was sent, most recently raised first.
    pub fn output_elements(&self, cursor: CursorStatus, cursor_position: Point) -> (r: Vec<
        RenderItem,
    >)
        requires
            self.wf(),
        ensures
            r@ == frame_elements(self.space@, self.surfaces@, cursor, cursor_position),
    {
        let mut out: Vec<RenderItem> = Vec::new();
        match cursor {
            CursorStatus::Default => out.push(RenderItem::Cursor { location: cursor_position }),
            CursorStatus::Surface(_) => {},
        }
        let ghost start = out@;
        let elements = self.space.elements();
        let n = elements.len();
        let mut i: usize = 0;
        while i < n
            invariant
                self.wf(),
                n == elements@.len(),
                elements@ == self.space@,
                i <= n,
                out@ == start + window_items(self.space@, self.surfaces@, i as int),
            decreases n - i,
        {
            let m = elements[n - 1 - i];
            let id = m.element.id();
            let drawable = match self.surface(id) {
                Some(rec) => !matches!(rec.stage, ConfigureStage::Uninitialized),
                None => false,
            };
            if drawable {
                out.push(RenderItem::Window { id, location: m.location });
            }
            i = i + 1;
        }
        assert(out@ =~= frame_elements(self.space@, self.surfaces@, cursor, cursor_position));
        out
    }

    /// Plans one frame of an output with integer `scale`. A cursor surface
    /// that is no longer live (`cursor_surface_alive` false) gives way to the
    /// default cursor, for good. The cursor is painted at the pointer less
    /// the cursor surface's `hotspot` (none for the default cursor); the
    /// backend's own cursor is hidden while a client surface serves as
    /// cursor. Only windows whose initial configure was sent are drawn.
    pub fn plan_frame(
        &mut self,
        frames: &mut FrameState,
        buffer_age: Option<usize>,
        cursor_surface_alive: bool,
        hotspot: Point,
        scale: u8,
    ) -> (r: FramePlan)
        requires
            old(self).wf(),
        ensures
            final(self).wf(),
            final(self).space@ == old(self).space@,
            final(self).surfaces@ == old(self).surfaces@,
            crate::state::same_seat_but_cursor(*final(self), *old(self)),
            final(self).cursor_status == checked_cursor(old(self).cursor_status, cursor_surface_alive),
            final(frames).full_redraw == (if old(frames).full_redraw > 0 {
                old(frames).full_redraw - 1
            } else {
                0
            }),
            r.age == frame_age(final(frames).full_redraw, buffer_age),
            ({
                let cursor = final(self).cursor_status;
                let at = cursor_paint_position(
                    old(self).pointer_location,
                    if cursor is Surface {
                        hotspot
                    } else {
                        Point { x: 0, y: 0 }
                    },
                    scale,
                );
                &&& r.cursor_position == at
                &&& r.elements@ == frame_elements(old(self).space@, old(self).surfaces@, cursor, at)
                &&& r.show_system_cursor == !(cursor is Surface)
            }),
    {
        let age = frames.begin_frame(buffer_age);
        match self.cursor_status {
            CursorStatus::Surface(_) => {
                if !cursor_surface_alive {
                    self.cursor_status = CursorStatus::Default;
                }
            },
            CursorStatus::Default => {},
        }
        let cursor = self.cursor_status;
        let spot = match cursor {
            CursorStatus::Surface(_) => hotspot,
            CursorStatus::Default => Point { x: 0, y: 0 },
        };
        let p = self.pointer_location;
        let at = Point {
            x: paint_coordinate(p.x, spot.x, scale),
            y: paint_coordinate(p.y, spot.y, scale),
        };
        let elements = self.output_elements(cursor, at);
        FramePlan {
            age,
            elements,
            show_system_cursor: !matches!(cursor, CursorStatus::Surface(_)),
            cursor_position: at,
        }
    }
}

} // verus!
