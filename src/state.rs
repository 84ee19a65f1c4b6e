//! The compositor's single ownership root: the registry, the surface
//! records, the seat's focus and the pointer's grab.
use vstd::prelude::*;

use crate::geometry::{saturating_i32, FixedPoint, Point, Size};
use crate::grabs::{
    location_for_size, move_target, resize_target_size, resized_location, FocusAt, GrabStartData,
    MoveSurfaceGrab, PointerFocus, PointerGrab, ResizeSurfaceGrab,
};
use crate::input::{axis_frame, axis_frame_spec, axis_reported, AxisFrame, InputEvent};
use crate::space::{
    find_index, id_of, ids_unique, lemma_find_index, top_index_under, MappedWindow, Space,
};
use crate::surface::{
    commit_spec, with_resize_state, CommitReply, DecorationMode, ResizeData, ResizeEdges,
    ResizeState, SurfaceState,
};
use crate::window::{WindowData, WindowElement};

verus! {

/// Data the compositor attaches to each client connection; it holds nothing.
#[derive(Clone, Copy, Debug, PartialEq, Eq, Structural)]
pub struct ClientState;

/// What the compositor needs of a graphics backend.
pub trait Backend {
    /// Name of the seat the backend provides.
    fn seat_name(&self) -> String;

    /// Lets the backend stage the buffer of `surface` before its commit is
    /// handled.
    fn early_import(&mut self, surface: u64);

    /// The buffers of `output` are no longer valid; the next frames are
    /// drawn whole.
    fn reset_buffers(&mut self, output: u64);
}

/// What the cursor looks like.
#[derive(Clone, Copy, Debug, PartialEq, Eq, Structural)]
pub enum CursorStatus {
    /// The compositor's own cursor.
    Default,
    /// A client surface serves as the cursor image.
    Surface(u64),
}

/// A display output: where it stands in logical space, its size and its
/// integer scale.
#[derive(Clone, Copy, Debug, PartialEq, Eq, Structural)]
pub struct OutputInfo {
    pub location: Point,
    pub size: Size,
    pub scale: u32,
}

/// Index of the record of surface `id`, or -1.
pub open spec fn surface_index(ss: Seq<SurfaceState>, id: u64) -> int
    decreases ss.len(),
{
    if ss.len() == 0 {
        -1
    } else if ss.last().id == id {
        ss.len() - 1
    } else {
        surface_index(ss.drop_last(), id)
    }
}

pub open spec fn surface_ids_unique(ss: Seq<SurfaceState>) -> bool {
    forall|i: int, j: int| 0 <= i < ss.len() && 0 <= j < ss.len() && i != j ==> ss[i].id != ss[j].id
}

pub proof fn lemma_surface_index(ss: Seq<SurfaceState>, id: u64)
    ensures
        -1 <= surface_index(ss, id) < ss.len(),
        surface_index(ss, id) >= 0 ==> ss[surface_index(ss, id)].id == id,
        surface_index(ss, id) == -1 ==> forall|i: int| 0 <= i < ss.len() ==> ss[i].id != id,
        surface_ids_unique(ss) ==> forall|i: int|
            0 <= i < ss.len() && ss[i].id == id ==> surface_index(ss, id) == i,
    decreases ss.len(),
{
    if ss.len() > 0 {
        let d = ss.drop_last();
        lemma_surface_index(d, id);
        assert forall|i: int| 0 <= i < d.len() implies #[trigger] d[i] == ss[i] by {}
        if surface_index(ss, id) == -1 {
            assert forall|i: int| 0 <= i < ss.len() implies ss[i].id != id by {
                if i < ss.len() - 1 {
                    assert(d[i].id != id);
                }
            }
        }
        if surface_ids_unique(ss) {
            assert(surface_ids_unique(d));
            assert forall|i: int| 0 <= i < ss.len() && ss[i].id == id implies surface_index(ss, id)
                == i by {
                if i < ss.len() - 1 {
                    assert(d[i].id == id);
                }
            }
        }
    }
}

proof fn lemma_set_surface_unique(ss: Seq<SurfaceState>, j: int, rec: SurfaceState)
    requires
        surface_ids_unique(ss),
        0 <= j < ss.len(),
        rec.id == ss[j].id,
    ensures
        surface_ids_unique(ss.update(j, rec)),
{
    let r = ss.update(j, rec);
    assert forall|a: int, b: int| 0 <= a < r.len() && 0 <= b < r.len() && a != b implies r[a].id
        != r[b].id by {
        assert(r[a].id == ss[a].id);
        assert(r[b].id == ss[b].id);
    }
}

/// The client that owns surface `id`, when the surface is known.
pub open spec fn client_of(ss: Seq<SurfaceState>, id: u64) -> Option<u64> {
    let k = surface_index(ss, id);
    if k >= 0 {
        Some(ss[k].client)
    } else {
        None
    }
}

/// Focus target of a mapped window.
pub open spec fn focus_of(m: MappedWindow) -> PointerFocus {
    PointerFocus { surface: m.element.data().id, client: m.element.data().client }
}

/// The topmost window under `p`, with its location.
pub open spec fn window_under(s: Seq<MappedWindow>, p: FixedPoint) -> Option<(WindowElement, Point)> {
    let k = top_index_under(s, p, s.len() as int);
    if k >= 0 {
        Some((s[k].element, s[k].location))
    } else {
        None
    }
}

/// The surface under `p` as a focus target, with its location.
pub open spec fn focus_under(s: Seq<MappedWindow>, p: FixedPoint) -> Option<FocusAt> {
    let k = top_index_under(s, p, s.len() as int);
    if k >= 0 {
        Some(FocusAt { target: focus_of(s[k]), location: s[k].location })
    } else {
        None
    }
}

/// The grab start data that a move or resize request with `serial`, from a
/// surface of `client`, may take over: the pointer's grab must carry that
/// serial, and its focus must belong to the same client.
pub open spec fn grab_check(grab: Option<PointerGrab>, serial: u32, client: Option<u64>) -> Option<
    GrabStartData,
> {
    match grab {
        Some(g) => if g.start().serial == serial && g.start().focus is Some && client == Some(
            g.start().focus->0.client,
        ) {
            Some(g.start())
        } else {
            None
        },
        None => None,
    }
}

/// The registry after a commit of surface `id` with geometry size `size`:
/// a mapped window takes the size, and one being resized is placed so that
/// the edges opposite to the dragged ones stay.
pub open spec fn space_after_commit(
    s: Seq<MappedWindow>,
    id: u64,
    size: Size,
    rs: ResizeState,
) -> Seq<MappedWindow> {
    let k = find_index(s, id);
    if k < 0 {
        s
    } else {
        let e = s[k].element;
        let resized = MappedWindow {
            element: e.with_data(WindowData { size, ..e.data() }),
            ..s[k]
        };
        let placed = match rs {
            ResizeState::Resizing(d) => MappedWindow {
                location: location_for_size(d, size),
                ..resized
            },
            ResizeState::WaitingForCommit(d) => MappedWindow {
                location: location_for_size(d, size),
                ..resized
            },
            ResizeState::NotResizing => resized,
        };
        s.update(k, placed)
    }
}

/// The surface records once surface `id` of `client` is known.
pub open spec fn registered(ss: Seq<SurfaceState>, id: u64, client: u64) -> Seq<SurfaceState> {
    if surface_index(ss, id) >= 0 {
        ss
    } else {
        ss.push(SurfaceState::new_spec(id, client))
    }
}

/// Whether `id` is the root surface of a mapped shell toplevel.
pub open spec fn mapped_toplevel(s: Seq<MappedWindow>, id: u64) -> bool {
    find_index(s, id) >= 0 && s[find_index(s, id)].element is Xdg
}

/// `a` and `b` agree on everything the seat holds but the pointer's grab.
pub open spec fn same_seat_but_grab(a: NoWayState, b: NoWayState) -> bool {
    &&& a.keyboard_focus == b.keyboard_focus
    &&& a.pointer_location == b.pointer_location
    &&& a.pressed_buttons@ == b.pressed_buttons@
    &&& a.cursor_status == b.cursor_status
    &&& a.outputs@ == b.outputs@
}

/// A configure that a resize asks of a client: the window's new size.
#[derive(Clone, Copy, Debug, PartialEq, Eq, Structural)]
pub struct ResizeConfigure {
    pub surface: u64,
    pub size: Size,
    /// Whether the resize is still under way.
    pub resizing: bool,
}

/// What a pointer motion asks of the protocol layer.
#[derive(Clone, Copy, Debug, PartialEq, Eq, Structural)]
pub struct MotionReply {
    /// The surface that gets the motion event, with its location; none
    /// while a window is moved or resized.
    pub focus: Option<FocusAt>,
    /// A configure to send for an ongoing resize.
    pub configure: Option<ResizeConfigure>,
}

/// How a button press changes keyboard focus.
#[derive(Clone, Copy, Debug, PartialEq, Eq, Structural)]
pub enum FocusChange {
    Unchanged,
    /// Focus goes to this surface, whose window was raised and activated.
    Focus(u64),
    /// Focus is cleared and every window deactivated.
    Clear,
}

/// What a button event asks of the protocol layer, besides forwarding the
/// button itself, which is always done.
#[derive(Clone, Copy, Debug, PartialEq, Eq, Structural)]
pub struct ButtonReply {
    pub focus_change: FocusChange,
    /// The last configure of a resize whose grab this release ended.
    pub resize_done: Option<ResizeConfigure>,
}

/// Focus of a click grab: the surface it started on, where it now stands.
pub open spec fn click_focus(s: Seq<MappedWindow>, d: GrabStartData) -> Option<FocusAt> {
    match d.focus {
        Some(f) => if find_index(s, f.surface) >= 0 {
            Some(FocusAt { target: f, location: s[find_index(s, f.surface)].location })
        } else {
            None
        },
        None => None,
    }
}

/// Whether the window `id` is mapped and live.
pub open spec fn live_window(s: Seq<MappedWindow>, id: u64) -> bool {
    find_index(s, id) >= 0 && s[find_index(s, id)].element.data().alive
}

/// The state after the pointer moved to `p`, and the reply.
pub open spec fn motion_post(a: NoWayState, b: NoWayState, p: FixedPoint, r: MotionReply) -> bool {
    &&& b.pointer_location == p
    &&& b.surfaces@ == a.surfaces@
    &&& b.keyboard_focus == a.keyboard_focus
    &&& b.pressed_buttons@ == a.pressed_buttons@
    &&& b.cursor_status == a.cursor_status
    &&& b.outputs@ == a.outputs@
    &&& match a.grab {
        None => {
            &&& b.grab == a.grab
            &&& b.space@ == a.space@
            &&& r == MotionReply { focus: focus_under(a.space@, p), configure: None }
        },
        Some(PointerGrab::Click(d)) => {
            &&& b.grab == a.grab
            &&& b.space@ == a.space@
            &&& r == MotionReply { focus: click_focus(a.space@, d), configure: None }
        },
        Some(PointerGrab::Move(g)) => {
            &&& r == MotionReply { focus: None, configure: None }
            &&& if live_window(a.space@, g.window) {
                &&& b.grab == a.grab
                &&& b.space@ == crate::space::map_spec(
                    a.space@,
                    a.space@[find_index(a.space@, g.window)].element,
                    move_target(g, p),
                    true,
                )
            } else {
                b.grab is None && b.space@ == a.space@
            }
        },
        Some(PointerGrab::Resize(g)) => {
            &&& b.space@ == a.space@
            &&& if live_window(a.space@, g.window) {
                let size = resize_target_size(g, p);
                &&& b.grab == Some(
                    PointerGrab::Resize(ResizeSurfaceGrab { last_window_size: size, ..g }),
                )
                &&& r == MotionReply {
                    focus: None,
                    configure: Some(ResizeConfigure { surface: g.window, size, resizing: true }),
                }
            } else {
                &&& b.grab is None
                &&& r == MotionReply { focus: None, configure: None }
            }
        },
    }
}

/// The registry after a press at `p` with no grab active: the window under
/// `p` is raised and becomes the only active one; over empty space every
/// window is deactivated.
pub open spec fn press_space(s: Seq<MappedWindow>, p: FixedPoint) -> Seq<MappedWindow> {
    let k = top_index_under(s, p, s.len() as int);
    if k >= 0 {
        crate::space::raise_spec(s, id_of(s[k]), true)
    } else {
        s.map_values(|w: MappedWindow| crate::space::deactivated(w))
    }
}

/// Keyboard focus after a press at `p` with no grab active.
pub open spec fn press_target(s: Seq<MappedWindow>, p: FixedPoint) -> Option<u64> {
    let k = top_index_under(s, p, s.len() as int);
    if k >= 0 {
        Some(id_of(s[k]))
    } else {
        None
    }
}

/// The held buttons after `b` went down.
pub open spec fn add_button(s: Seq<u32>, b: u32) -> Seq<u32> {
    if s.contains(b) {
        s
    } else {
        s.push(b)
    }
}

/// The held buttons after `b` went up.
pub open spec fn remove_button(s: Seq<u32>, b: u32) -> Seq<u32>
    decreases s.len(),
{
    if s.len() == 0 {
        s
    } else if s.last() == b {
        remove_button(s.drop_last(), b)
    } else {
        remove_button(s.drop_last(), b).push(s.last())
    }
}

/// The state after a button event, and the reply.
pub open spec fn button_post(
    a: NoWayState,
    b: NoWayState,
    button: u32,
    pressed: bool,
    serial: u32,
    r: ButtonReply,
) -> bool {
    let p = a.pointer_location;
    let press_focus = pressed && a.grab is None;
    let held = if pressed {
        add_button(a.pressed_buttons@, button)
    } else {
        remove_button(a.pressed_buttons@, button)
    };
    &&& b.pointer_location == a.pointer_location
    &&& b.cursor_status == a.cursor_status
    &&& b.outputs@ == a.outputs@
    &&& b.pressed_buttons@ == held
    &&& b.space@ == (if press_focus {
        press_space(a.space@, p)
    } else {
        a.space@
    })
    &&& b.keyboard_focus == (if press_focus {
        press_target(a.space@, p)
    } else {
        a.keyboard_focus
    })
    &&& r.focus_change == (if !press_focus {
        FocusChange::Unchanged
    } else if press_target(a.space@, p) is Some {
        FocusChange::Focus(press_target(a.space@, p)->0)
    } else {
        FocusChange::Clear
    })
    &&& if pressed {
        &&& b.surfaces@ == a.surfaces@
        &&& r.resize_done is None
        &&& b.grab == (if a.grab is None {
            Some(
                PointerGrab::Click(
                    GrabStartData {
                        focus: match focus_under(a.space@, p) {
                            Some(fa) => Some(fa.target),
                            None => None,
                        },
                        button,
                        location: p,
                        serial,
                    },
                ),
            )
        } else {
            a.grab
        })
    } else {
        match a.grab {
            Some(PointerGrab::Resize(g)) => if held.contains(crate::grabs::BTN_LEFT) {
                b.grab == a.grab && b.surfaces@ == a.surfaces@ && r.resize_done is None
            } else if !live_window(a.space@, g.window) {
                &&& b.grab is None
                &&& b.surfaces@ == a.surfaces@
                &&& r.resize_done is None
            } else {
                let j = surface_index(a.surfaces@, g.window);
                &&& b.grab is None
                &&& r.resize_done == Some(
                    ResizeConfigure { surface: g.window, size: g.last_window_size, resizing: false },
                )
                &&& j >= 0 ==> b.surfaces@ == a.surfaces@.update(
                    j,
                    with_resize_state(
                        a.surfaces@[j],
                        crate::surface::resize_after_release(
                            crate::surface::resize_state_of(a.surfaces@[j]),
                        ),
                    ),
                )
                &&& j < 0 ==> b.surfaces@ == a.surfaces@
            },
            Some(PointerGrab::Move(_)) => {
                &&& b.surfaces@ == a.surfaces@
                &&& r.resize_done is None
                &&& b.grab == (if held.contains(crate::grabs::BTN_LEFT) {
                    a.grab
                } else {
                    None
                })
            },
            Some(PointerGrab::Click(_)) => {
                &&& b.surfaces@ == a.surfaces@
                &&& r.resize_done is None
                &&& b.grab == (if held.len() == 0 {
                    None
                } else {
                    a.grab
                })
            },
            None => b.grab is None && b.surfaces@ == a.surfaces@ && r.resize_done is None,
        }
    }
}

fn holds_button(v: &Vec<u32>, b: u32) -> (r: bool)
    ensures
        r == v@.contains(b),
{
    let mut i: usize = 0;
    while i < v.len()
        invariant
            i <= v@.len(),
            forall|j: int| 0 <= j < i ==> v@[j] != b,
        decreases v@.len() - i,
    {
        if v[i] == b {
            assert(v@[i as int] == b);
            return true;
        }
        i = i + 1;
    }
    false
}

fn released(v: &Vec<u32>, b: u32) -> (r: Vec<u32>)
    ensures
        r@ == remove_button(v@, b),
{
    let mut out: Vec<u32> = Vec::new();
    let mut i: usize = 0;
    while i < v.len()
        invariant
            i <= v@.len(),
            out@ == remove_button(v@.subrange(0, i as int), b),
        decreases v@.len() - i,
    {
        assert(v@.subrange(0, i as int + 1).drop_last() =~= v@.subrange(0, i as int));
        if v[i] != b {
            out.push(v[i]);
        }
        i = i + 1;
    }
    assert(v@.subrange(0, v@.len() as int) =~= v@);
    out
}

/// `a` and `b` agree on everything the seat holds but the cursor.
pub open spec fn same_seat_but_cursor(a: NoWayState, b: NoWayState) -> bool {
    &&& a.keyboard_focus == b.keyboard_focus
    &&& a.pointer_location == b.pointer_location
    &&& a.grab == b.grab
    &&& a.pressed_buttons@ == b.pressed_buttons@
    &&& a.outputs@ == b.outputs@
}

/// What an input event asks of the protocol layer.
#[derive(Clone, Copy, Debug, PartialEq, Eq, Structural)]
pub enum InputReply {
    /// Forward the key, unfiltered, to this keyboard focus.
    Key { focus: Option<u64> },
    /// Move the pointer to `location` and deliver the motion as `reply` says.
    Motion { location: FixedPoint, reply: MotionReply },
    /// Forward the button, after what `ButtonReply` says.
    Button(ButtonReply),
    /// Send this scroll frame.
    Axis(AxisFrame),
    /// Nothing to do.
    Ignored,
}

/// A position within `output` placed in logical space.
pub open spec fn output_position(output: OutputInfo, p: FixedPoint) -> FixedPoint {
    FixedPoint {
        x: crate::geometry::saturate_i32(output.location.x * 256 + p.x) as i32,
        y: crate::geometry::saturate_i32(output.location.y * 256 + p.y) as i32,
    }
}

/// `a` and `b` are the same state.
pub open spec fn unchanged(a: NoWayState, b: NoWayState) -> bool {
    &&& b.space@ == a.space@
    &&& b.surfaces@ == a.surfaces@
    &&& same_seat(a, b)
}

/// The state after an input event, and the reply.
pub open spec fn input_post(a: NoWayState, b: NoWayState, event: InputEvent, r: InputReply) -> bool {
    match event {
        InputEvent::Keyboard { .. } => unchanged(a, b) && r == InputReply::Key {
            focus: a.keyboard_focus,
        },
        InputEvent::PointerMotionAbsolute { position, .. } => if a.outputs@.len() == 0 {
            unchanged(a, b) && r == InputReply::Ignored
        } else {
            let p = output_position(a.outputs@[0], position);
            match r {
                InputReply::Motion { location, reply } => location == p && motion_post(
                    a,
                    b,
                    p,
                    reply,
                ),
                _ => false,
            }
        },
        InputEvent::PointerButton { button, pressed, serial, .. } => match r {
            InputReply::Button(br) => button_post(a, b, button, pressed, serial, br),
            _ => false,
        },
        InputEvent::PointerAxis { source, horizontal, vertical, time } => {
            &&& unchanged(a, b)
            &&& r == if axis_reported(horizontal) && axis_reported(vertical) {
                InputReply::Axis(axis_frame_spec(source, time, horizontal, vertical))
            } else {
                InputReply::Ignored
            }
        },
        _ => unchanged(a, b) && r == InputReply::Ignored,
    }
}

/// The state after a commit of `surface`, a surface of `client` whose
/// geometry now has `size`, and the reply.
pub open spec fn commit_post(
    a: NoWayState,
    b: NoWayState,
    surface: u64,
    client: u64,
    size: Size,
    r: CommitReply,
) -> bool {
    &&& same_seat(b, a)
    &&& ({
        let ss = registered(a.surfaces@, surface, client);
        let k = surface_index(ss, surface);
        let step = commit_spec(ss[k], mapped_toplevel(a.space@, surface));
        &&& 0 <= k < ss.len()
        &&& b.surfaces@ == ss.update(k, step.0)
        &&& r == step.1
        &&& b.space@ == space_after_commit(
            a.space@,
            surface,
            size,
            crate::surface::resize_state_of(ss[k]),
        )
    })
}

/// The state after a request to resize `surface` along `edges` with
/// `serial`, and whether a resize grab was installed.
pub open spec fn resize_post(
    a: NoWayState,
    b: NoWayState,
    surface: u64,
    serial: u32,
    edges: ResizeEdges,
    installed: bool,
) -> bool {
    &&& b.space@ == a.space@
    &&& same_seat_but_grab(b, a)
    &&& ({
        let c = grab_check(a.grab, serial, client_of(a.surfaces@, surface));
        let k = find_index(a.space@, surface);
        let j = surface_index(a.surfaces@, surface);
        let loc = a.space@[k].location;
        let size = a.space@[k].element.data().size;
        let data = ResizeData {
            edges,
            initial_window_location: loc,
            initial_window_size: size,
        };
        &&& installed == (c is Some && k >= 0)
        &&& installed ==> b.grab == Some(
            PointerGrab::Resize(
                ResizeSurfaceGrab {
                    start_data: c->0,
                    window: surface,
                    edges,
                    initial_window_location: loc,
                    initial_window_size: size,
                    last_window_size: size,
                },
            ),
        )
        &&& installed ==> 0 <= j && b.surfaces@ == a.surfaces@.update(
            j,
            with_resize_state(a.surfaces@[j], ResizeState::Resizing(data)),
        )
        &&& !installed ==> b.grab == a.grab && b.surfaces@
            == a.surfaces@
    })
}

/// The compositor state.
pub struct NoWayState {
    pub space: Space,
    pub surfaces: Vec<SurfaceState>,
    /// Surface with keyboard focus.
    pub keyboard_focus: Option<u64>,
    pub pointer_location: FixedPoint,
    pub grab: Option<PointerGrab>,
    /// Buttons held down.
    pub pressed_buttons: Vec<u32>,
    pub cursor_status: CursorStatus,
    pub outputs: Vec<OutputInfo>,
}

/// `a` and `b` agree on everything the seat holds.
pub open spec fn same_seat(a: NoWayState, b: NoWayState) -> bool {
    &&& a.keyboard_focus == b.keyboard_focus
    &&& a.pointer_location == b.pointer_location
    &&& a.grab == b.grab
    &&& a.pressed_buttons@ == b.pressed_buttons@
    &&& a.cursor_status == b.cursor_status
    &&& a.outputs@ == b.outputs@
}

impl NoWayState {
    pub open spec fn wf(&self) -> bool {
        &&& self.space.wf()
        &&& surface_ids_unique(self.surfaces@)
    }

    /// An empty compositor with the pointer at (100, 100).
    pub fn new() -> (r: NoWayState)
        ensures
            r.wf(),
            r.space@ == Seq::<MappedWindow>::empty(),
            r.surfaces@ == Seq::<SurfaceState>::empty(),
            r.keyboard_focus is None,
            r.pointer_location == (FixedPoint { x: 25600, y: 25600 }),
            r.grab is None,
            r.pressed_buttons@ == Seq::<u32>::empty(),
            r.cursor_status == CursorStatus::Default,
            r.outputs@ == Seq::<OutputInfo>::empty(),
    {
        NoWayState {
            space: Space::new(),
            surfaces: Vec::new(),
            keyboard_focus: None,
            pointer_location: FixedPoint { x: 100 * 256, y: 100 * 256 },
            grab: None,
            pressed_buttons: Vec::new(),
            cursor_status: CursorStatus::Default,
            outputs: Vec::new(),
        }
    }

    /// Position of the record of surface `id`.
    pub fn find_surface(&self, id: u64) -> (r: Option<usize>)
        requires
            self.wf(),
        ensures
            r is None <==> surface_index(self.surfaces@, id) == -1,
            r is Some ==> r->0 == surface_index(self.surfaces@, id) && r->0 < self.surfaces@.len(),
    {
        let mut i: usize = 0;
        while i < self.surfaces.len()
            invariant
                self.wf(),
                i <= self.surfaces@.len(),
                forall|j: int| 0 <= j < i ==> self.surfaces@[j].id != id,
            decreases self.surfaces@.len() - i,
        {
            if self.surfaces[i].id == id {
                proof {
                    lemma_surface_index(self.surfaces@, id);
                }
                return Some(i);
            }
            i = i + 1;
        }
        proof {
            lemma_surface_index(self.surfaces@, id);
        }
        None
    }

    /// The record of surface `id`, if the surface is known.
    pub fn surface(&self, id: u64) -> (r: Option<SurfaceState>)
        requires
            self.wf(),
        ensures
            r == (if surface_index(self.surfaces@, id) >= 0 {
                Some(self.surfaces@[surface_index(self.surfaces@, id)])
            } else {
                None
            }),
    {
        match self.find_surface(id) {
            Some(k) => Some(self.surfaces[k]),
            None => None,
        }
    }

    /// Registers a surface that a client created; a known one is left as it is.
    pub fn new_surface(&mut self, id: u64, client: u64)
        requires
            old(self).wf(),
        ensures
            final(self).wf(),
            final(self).space@ == old(self).space@,
            same_seat(*final(self), *old(self)),
            surface_index(old(self).surfaces@, id) >= 0 ==> final(self).surfaces@ == old(
                self,
            ).surfaces@,
            surface_index(old(self).surfaces@, id) < 0 ==> final(self).surfaces@ == old(
                self,
            ).surfaces@.push(SurfaceState::new_spec(id, client)),
            surface_index(final(self).surfaces@, id) >= 0,
    {
        proof {
            lemma_surface_index(self.surfaces@, id);
        }
        match self.find_surface(id) {
            Some(_) => {},
            None => {
                self.surfaces.push(SurfaceState::new(id, client));
                proof {
                    lemma_surface_index(self.surfaces@, id);
                    assert(self.surfaces@[self.surfaces@.len() - 1].id == id);
                }
            },
        }
    }

    /// The window whose root surface is `surface`.
    pub fn window_for_surface(&self, surface: u64) -> (r: Option<WindowElement>)
        requires
            self.wf(),
        ensures
            r == (if find_index(self.space@, surface) >= 0 {
                Some(self.space@[find_index(self.space@, surface)].element)
            } else {
                None
            }),
    {
        self.space.window(surface)
    }

    /// The topmost window under the pointer, with its location.
    pub fn window_under_pointer(&self) -> (r: Option<(WindowElement, Point)>)
        ensures
            r == window_under(self.space@, self.pointer_location),
    {
        self.space.element_under(self.pointer_location)
    }

    /// The surface under the pointer, with its location.
    pub fn surface_under_pointer(&self) -> (r: Option<FocusAt>)
        ensures
            r == focus_under(self.space@, self.pointer_location),
    {
        match self.window_under_pointer() {
            Some((w, loc)) => {
                let d = w.data_of();
                Some(FocusAt { target: PointerFocus { surface: d.id, client: d.client }, location: loc })
            },
            None => None,
        }
    }

    /// A client created a toplevel: it is registered and mapped at the
    /// origin, on top, without activation.
    pub fn new_toplevel(&mut self, window: WindowElement)
        requires
            old(self).wf(),
        ensures
            final(self).wf(),
            same_seat(*final(self), *old(self)),
            final(self).space@ == crate::space::map_spec(
                old(self).space@,
                window,
                Point { x: 0, y: 0 },
                false,
            ),
            surface_index(old(self).surfaces@, window.data().id) >= 0 ==> final(self).surfaces@
                == old(self).surfaces@,
            surface_index(old(self).surfaces@, window.data().id) < 0 ==> final(self).surfaces@
                == old(self).surfaces@.push(
                SurfaceState::new_spec(window.data().id, window.data().client),
            ),
    {
        let d = window.data_of();
        self.new_surface(d.id, d.client);
        self.space.map_element(window, Point { x: 0, y: 0 }, false);
    }

    /// Handles a commit of `surface`, a surface of `client` whose geometry
    /// now has `size`. The surface's record is created if it is missing and
    /// advances as `commit_spec` says: a mapped toplevel without its initial
    /// configure is to get it now, and a resize waiting for this commit ends.
    /// A mapped window takes the size, and one being resized is placed so
    /// that the edges opposite to the dragged ones stay where they were.
    pub fn commit_xdg_surface(&mut self, surface: u64, client: u64, size: Size) -> (r: CommitReply)
        requires
            old(self).wf(),
        ensures
            final(self).wf(),
            commit_post(*old(self), *final(self), surface, client, size, r),
    {
        self.new_surface(surface, client);
        proof {
            lemma_surface_index(self.surfaces@, surface);
            lemma_find_index(self.space@, surface);
        }
        let k = match self.find_surface(surface) {
            Some(k) => k,
            None => {
                return CommitReply { send_initial_configure: false, finished_resize: None };
            },
        };
        let mapped = match self.space.window(surface) {
            Some(WindowElement::Xdg(_)) => true,
            _ => false,
        };
        let mut rec = self.surfaces[k];
        let rs = rec.resize_state();
        let reply = rec.commit(mapped);
        let ghost ss = self.surfaces@;
        self.surfaces.set(k, rec);
        proof {
            lemma_set_surface_unique(ss, k as int, rec);
        }
        let ghost s0 = self.space@;
        match self.space.window(surface) {
            Some(w) => {
                let mut d = w.data_of();
                d.size = size;
                self.space.update_window(surface, d);
                let ghost s1 = self.space@;
                proof {
                    lemma_find_index(s0, surface);
                    let k0 = find_index(s0, surface);
                    assert(s1[k0].element.data().id == surface);
                    lemma_find_index(s1, surface);
                    assert(find_index(s1, surface) == k0);
                }
                match rs {
                    ResizeState::Resizing(rd) => {
                        self.space.relocate(surface, resized_location(rd, size));
                    },
                    ResizeState::WaitingForCommit(rd) => {
                        self.space.relocate(surface, resized_location(rd, size));
                    },
                    ResizeState::NotResizing => {},
                }
                proof {
                    lemma_find_index(self.space@, surface);
                    assert(self.space@ =~= space_after_commit(s0, surface, size, rs));
                }
            },
            None => {},
        }
        reply
    }

    /// The grab that a move or resize request of `surface` with `serial`
    /// may take over; see `grab_check`.
    pub fn check_grab(&self, surface: u64, serial: u32) -> (r: Option<GrabStartData>)
        requires
            self.wf(),
        ensures
            r == grab_check(self.grab, serial, client_of(self.surfaces@, surface)),
    {
        let client = match self.surface(surface) {
            Some(rec) => rec.client,
            None => {
                return None;
            },
        };
        match self.grab {
            Some(g) => {
                let start = g.start_data();
                if start.serial != serial {
                    return None;
                }
                match start.focus {
                    Some(f) => if f.client == client {
                        Some(start)
                    } else {
                        None
                    },
                    None => None,
                }
            },
            None => None,
        }
    }

    /// A client asked to move the window of `surface`. When the grab check
    /// passes and the window is mapped, a move grab takes over the pointer
    /// from the window's current location; otherwise nothing changes.
    pub fn move_request(&mut self, surface: u64, serial: u32) -> (installed: bool)
        requires
            old(self).wf(),
        ensures
            final(self).wf(),
            final(self).space@ == old(self).space@,
            final(self).surfaces@ == old(self).surfaces@,
            same_seat_but_grab(*final(self), *old(self)),
            ({
                let c = grab_check(old(self).grab, serial, client_of(old(self).surfaces@, surface));
                let k = find_index(old(self).space@, surface);
                &&& installed == (c is Some && k >= 0)
                &&& installed ==> final(self).grab == Some(
                    PointerGrab::Move(
                        MoveSurfaceGrab {
                            start_data: c->0,
                            window: surface,
                            initial_window_location: old(self).space@[k].location,
                        },
                    ),
                )
                &&& !installed ==> final(self).grab == old(self).grab
            }),
    {
        match self.check_grab(surface, serial) {
            Some(start_data) => match self.space.element_location(surface) {
                Some(initial_window_location) => {
                    self.grab = Some(
                        PointerGrab::Move(
                            MoveSurfaceGrab { start_data, window: surface, initial_window_location },
                        ),
                    );
                    true
                },
                None => false,
            },
            None => false,
        }
    }

    /// A client asked to resize the window of `surface` along `edges`. When
    /// the grab check passes and the window is mapped, a resize grab takes
    /// over the pointer from the window's location and size, and the
    /// surface's resize state becomes `Resizing`; otherwise nothing changes.
    pub fn resize_request(&mut self, surface: u64, serial: u32, edges: ResizeEdges) -> (installed: bool)
        requires
            old(self).wf(),
        ensures
            final(self).wf(),
            resize_post(*old(self), *final(self), surface, serial, edges, installed),
    {
        proof {
            lemma_surface_index(self.surfaces@, surface);
            lemma_find_index(self.space@, surface);
        }
        let start_data = match self.check_grab(surface, serial) {
            Some(s) => s,
            None => {
                return false;
            },
        };
        let window = match self.space.window(surface) {
            Some(w) => w,
            None => {
                return false;
            },
        };
        let j = match self.find_surface(surface) {
            Some(j) => j,
            None => {
                return false;
            },
        };
        let initial_window_location = match self.space.element_location(surface) {
            Some(l) => l,
            None => {
                return false;
            },
        };
        let initial_window_size = window.geometry();
        let data = ResizeData { edges, initial_window_location, initial_window_size };
        let mut rec = self.surfaces[j];
        rec.set_resize_state(ResizeState::Resizing(data));
        let ghost ss = self.surfaces@;
        self.surfaces.set(j, rec);
        proof {
            lemma_set_surface_unique(ss, j as int, rec);
        }
        self.grab = Some(
            PointerGrab::Resize(
                ResizeSurfaceGrab {
                    start_data,
                    window: surface,
                    edges,
                    initial_window_location,
                    initial_window_size,
                    last_window_size: initial_window_size,
                },
            ),
        );
        true
    }

    fn set_pending_decoration(&mut self, surface: u64, mode: DecorationMode) -> (r: Option<bool>)
        requires
            old(self).wf(),
        ensures
            final(self).wf(),
            final(self).space@ == old(self).space@,
            same_seat(*final(self), *old(self)),
            ({
                let j = surface_index(old(self).surfaces@, surface);
                &&& j >= 0 ==> final(self).surfaces@ == old(self).surfaces@.update(
                    j,
                    SurfaceState { pending_decoration: Some(mode), ..old(self).surfaces@[j] },
                ) && r == Some(!(old(self).surfaces@[j].stage is Uninitialized))
                &&& j < 0 ==> final(self).surfaces@ == old(self).surfaces@ && r is None
            }),
    {
        proof {
            lemma_surface_index(self.surfaces@, surface);
        }
        match self.find_surface(surface) {
            Some(j) => {
                let mut rec = self.surfaces[j];
                let send = rec.request_mode(mode);
                let ghost ss = self.surfaces@;
                self.surfaces.set(j, rec);
                proof {
                    lemma_set_surface_unique(ss, j as int, rec);
                }
                Some(send)
            },
            None => None,
        }
    }

    /// A new decoration object for `surface`: client-side decorations are
    /// pending until the client asks otherwise.
    pub fn new_decoration(&mut self, surface: u64)
        requires
            old(self).wf(),
        ensures
            final(self).wf(),
            final(self).space@ == old(self).space@,
            same_seat(*final(self), *old(self)),
            ({
                let j = surface_index(old(self).surfaces@, surface);
                &&& j >= 0 ==> final(self).surfaces@ == old(self).surfaces@.update(
                    j,
                    SurfaceState {
                        pending_decoration: Some(DecorationMode::ClientSide),
                        ..old(self).surfaces@[j]
                    },
                )
                &&& j < 0 ==> final(self).surfaces@ == old(self).surfaces@
            }),
    {
        let _ = self.set_pending_decoration(surface, DecorationMode::ClientSide);
    }

    /// The client of `surface` asked for decoration `mode`. Returns whether a
    /// configure is to be sent now: only once the initial configure was
    /// sent, which otherwise carries the mode.
    pub fn request_mode(&mut self, surface: u64, mode: DecorationMode) -> (send_configure: bool)
        requires
            old(self).wf(),
        ensures
            final(self).wf(),
            final(self).space@ == old(self).space@,
            same_seat(*final(self), *old(self)),
            ({
                let j = surface_index(old(self).surfaces@, surface);
                &&& j >= 0 ==> final(self).surfaces@ == old(self).surfaces@.update(
                    j,
                    SurfaceState { pending_decoration: Some(mode), ..old(self).surfaces@[j] },
                )
                &&& send_configure == (j >= 0 && !(old(self).surfaces@[j].stage is Uninitialized))
                &&& j < 0 ==> final(self).surfaces@ == old(self).surfaces@
            }),
    {
        match self.set_pending_decoration(surface, mode) {
            Some(send) => send,
            None => false,
        }
    }

    /// The client of `surface` withdrew its decoration preference:
    /// client-side decorations apply. Returns whether a configure is to be
    /// sent now.
    pub fn unset_mode(&mut self, surface: u64) -> (send_configure: bool)
        requires
            old(self).wf(),
        ensures
            final(self).wf(),
            final(self).space@ == old(self).space@,
            same_seat(*final(self), *old(self)),
            ({
                let j = surface_index(old(self).surfaces@, surface);
                &&& j >= 0 ==> final(self).surfaces@ == old(self).surfaces@.update(
                    j,
                    SurfaceState {
                        pending_decoration: Some(DecorationMode::ClientSide),
                        ..old(self).surfaces@[j]
                    },
                )
                &&& send_configure == (j >= 0 && !(old(self).surfaces@[j].stage is Uninitialized))
                &&& j < 0 ==> final(self).surfaces@ == old(self).surfaces@
            }),
    {
        self.request_mode(surface, DecorationMode::ClientSide)
    }

    /// The seat's cursor image changed.
    pub fn cursor_image(&mut self, image: CursorStatus)
        ensures
            final(self).cursor_status == image,
            final(self).space@ == old(self).space@,
            final(self).surfaces@ == old(self).surfaces@,
            same_seat_but_cursor(*final(self), *old(self)),
    {
        self.cursor_status = image;
    }

    /// The pointer moved to `location`. With no grab, the surface under the
    /// pointer gets the motion; a click grab keeps it on the surface it
    /// started on. A move grab places its window at the initial location plus
    /// the pointer's travel, raised and active; a resize grab asks the client
    /// for the size that the travel gives. Either grab ends, changing nothing
    /// else, once its window is gone or no longer live.
    pub fn pointer_motion(&mut self, location: FixedPoint) -> (r: MotionReply)
        requires
            old(self).wf(),
        ensures
            final(self).wf(),
            motion_post(*old(self), *final(self), location, r),
    {
        self.pointer_location = location;
        match self.grab {
            None => MotionReply { focus: self.surface_under_pointer(), configure: None },
            Some(PointerGrab::Click(d)) => {
                let focus = match d.focus {
                    Some(f) => match self.space.element_location(f.surface) {
                        Some(loc) => Some(FocusAt { target: f, location: loc }),
                        None => None,
                    },
                    None => None,
                };
                MotionReply { focus, configure: None }
            },
            Some(PointerGrab::Move(g)) => {
                proof {
                    lemma_find_index(self.space@, g.window);
                }
                match self.space.window(g.window) {
                    Some(w) => {
                        if w.alive() {
                            self.space.map_element(w, g.target_location(location), true);
                        } else {
                            self.grab = None;
                        }
                    },
                    None => {
                        self.grab = None;
                    },
                }
                MotionReply { focus: None, configure: None }
            },
            Some(PointerGrab::Resize(g)) => {
                proof {
                    lemma_find_index(self.space@, g.window);
                }
                let live = match self.space.window(g.window) {
                    Some(w) => w.alive(),
                    None => false,
                };
                if live {
                    let size = g.target_size(location);
                    self.grab = Some(
                        PointerGrab::Resize(ResizeSurfaceGrab { last_window_size: size, ..g }),
                    );
                    MotionReply {
                        focus: None,
                        configure: Some(
                            ResizeConfigure { surface: g.window, size, resizing: true },
                        ),
                    }
                } else {
                    self.grab = None;
                    MotionReply { focus: None, configure: None }
                }
            },
        }
    }

    /// A button went down or up. A press with no grab active gives keyboard
    /// focus to the window under the pointer, raised and made the only active
    /// window, or clears focus and deactivates every window over empty space;
    /// it then starts a click grab. A release ends a click grab once no
    /// button is held, and a move or resize grab once the left button is no
    /// longer held; a resize then waits for the client's commit, unless its
    /// window is gone or no longer live, in which case the grab ends with
    /// no configure and no change to the surface.
    pub fn pointer_button(&mut self, button: u32, pressed: bool, serial: u32) -> (r: ButtonReply)
        requires
            old(self).wf(),
        ensures
            final(self).wf(),
            button_post(*old(self), *final(self), button, pressed, serial, r),
    {
        let p = self.pointer_location;
        let mut focus_change = FocusChange::Unchanged;
        if pressed && self.grab.is_none() {
            let focus = match self.surface_under_pointer() {
                Some(fa) => Some(fa.target),
                None => None,
            };
            match self.space.element_under(p) {
                Some((w, _)) => {
                    let id = w.id();
                    self.space.raise_element(id, true);
                    self.keyboard_focus = Some(id);
                    focus_change = FocusChange::Focus(id);
                },
                None => {
                    self.space.deactivate_all();
                    self.keyboard_focus = None;
                    focus_change = FocusChange::Clear;
                },
            }
            self.grab = Some(
                PointerGrab::Click(GrabStartData { focus, button, location: p, serial }),
            );
        }
        if pressed {
            if !holds_button(&self.pressed_buttons, button) {
                self.pressed_buttons.push(button);
            }
            return ButtonReply { focus_change, resize_done: None };
        }
        self.pressed_buttons = released(&self.pressed_buttons, button);
        let left_held = holds_button(&self.pressed_buttons, crate::grabs::BTN_LEFT);
        match self.grab {
            Some(PointerGrab::Click(_)) => {
                if self.pressed_buttons.len() == 0 {
                    self.grab = None;
                }
                ButtonReply { focus_change, resize_done: None }
            },
            Some(PointerGrab::Move(_)) => {
                if !left_held {
                    self.grab = None;
                }
                ButtonReply { focus_change, resize_done: None }
            },
            Some(PointerGrab::Resize(g)) => {
                if left_held {
                    return ButtonReply { focus_change, resize_done: None };
                }
                self.grab = None;
                proof {
                    lemma_find_index(self.space@, g.window);
                }
                let live = match self.space.window(g.window) {
                    Some(w) => w.alive(),
                    None => false,
                };
                if !live {
                    return ButtonReply { focus_change, resize_done: None };
                }
                proof {
                    lemma_surface_index(self.surfaces@, g.window);
                }
                match self.find_surface(g.window) {
                    Some(j) => {
                        let mut rec = self.surfaces[j];
                        let next = match rec.resize_state() {
                            ResizeState::Resizing(d) => ResizeState::WaitingForCommit(d),
                            other => other,
                        };
                        rec.set_resize_state(next);
                        let ghost ss = self.surfaces@;
                        self.surfaces.set(j, rec);
                        proof {
                            lemma_set_surface_unique(ss, j as int, rec);
                        }
                    },
                    None => {},
                }
                ButtonReply {
                    focus_change,
                    resize_done: Some(
                        ResizeConfigure {
                            surface: g.window,
                            size: g.last_window_size,
                            resizing: false,
                        },
                    ),
                }
            },
            None => ButtonReply { focus_change, resize_done: None },
        }
    }

    /// Dispatches an input event: keys go unfiltered to the keyboard focus;
    /// an absolute motion is placed in the first output's space and handled
    /// by `pointer_motion`; buttons by `pointer_button`; an axis event becomes
    /// a scroll frame. Relative motion, other events, absolute motion with no
    /// output and axis events that report no amount are ignored.
    pub fn process_input_event(&mut self, event: InputEvent) -> (r: InputReply)
        requires
            old(self).wf(),
        ensures
            final(self).wf(),
            input_post(*old(self), *final(self), event, r),
    {
        match event {
            InputEvent::Keyboard { .. } => InputReply::Key { focus: self.keyboard_focus },
            InputEvent::PointerMotionAbsolute { position, .. } => {
                if self.outputs.len() == 0 {
                    return InputReply::Ignored;
                }
                let out = self.outputs[0];
                let p = FixedPoint {
                    x: saturating_i32(out.location.x as i64 * 256 + position.x as i64),
                    y: saturating_i32(out.location.y as i64 * 256 + position.y as i64),
                };
                let reply = self.pointer_motion(p);
                InputReply::Motion { location: p, reply }
            },
            InputEvent::PointerButton { button, pressed, serial, .. } => {
                InputReply::Button(self.pointer_button(button, pressed, serial))
            },
            InputEvent::PointerAxis { source, horizontal, vertical, time } => {
                if (horizontal.continuous.is_some() || horizontal.discrete.is_some()) && (
                vertical.continuous.is_some() || vertical.discrete.is_some()) {
                    InputReply::Axis(axis_frame(source, time, horizontal, vertical))
                } else {
                    InputReply::Ignored
                }
            },
            _ => InputReply::Ignored,
        }
    }

    /// Adds a display output; pointer positions are read in the first one.
    pub fn map_output(&mut self, output: OutputInfo)
        ensures
            final(self).outputs@ == old(self).outputs@.push(output),
            final(self).space@ == old(self).space@,
            final(self).surfaces@ == old(self).surfaces@,
            final(self).keyboard_focus == old(self).keyboard_focus,
            final(self).pointer_location == old(self).pointer_location,
            final(self).grab == old(self).grab,
            final(self).pressed_buttons@ == old(self).pressed_buttons@,
            final(self).cursor_status == old(self).cursor_status,
    {
        self.outputs.push(output);
    }

    /// The protocol object behind `surface` was destroyed: its window, if
    /// mapped, is no longer live, and goes at the next `refresh`.
    pub fn surface_destroyed(&mut self, surface: u64)
        requires
            old(self).wf(),
        ensures
            final(self).wf(),
            final(self).surfaces@ == old(self).surfaces@,
            same_seat(*final(self), *old(self)),
            ({
                let k = find_index(old(self).space@, surface);
                &&& k >= 0 ==> final(self).space@ == crate::space::with_window_data(
                    old(self).space@,
                    k,
                    WindowData { alive: false, ..old(self).space@[k].element.data() },
                )
                &&& k < 0 ==> final(self).space@ == old(self).space@
            }),
    {
        proof {
            lemma_find_index(self.space@, surface);
        }
        match self.space.window(surface) {
            Some(w) => {
                let mut d = w.data_of();
                d.alive = false;
                self.space.update_window(surface, d);
            },
            None => {},
        }
    }

    /// Drops the windows that are no longer live.
    pub fn refresh(&mut self)
        requires
            old(self).wf(),
        ensures
            final(self).wf(),
            final(self).space@ == crate::space::live_only(old(self).space@),
            final(self).surfaces@ == old(self).surfaces@,
            same_seat(*final(self), *old(self)),
    {
        self.space.refresh();
    }
}

proof fn lemma_map_on_top(s: Seq<MappedWindow>, e: WindowElement, loc: Point, activate: bool)
    requires
        activate,
        ids_unique(crate::space::map_spec(s, e, loc, activate)),
    ensures
        ({
            let r = crate::space::map_spec(s, e, loc, activate);
            &&& find_index(r, e.data().id) == r.len() - 1
            &&& r[r.len() - 1].location == loc
            &&& r[r.len() - 1].element.data().alive == e.data().alive
            &&& r[r.len() - 1].element.data().size == e.data().size
        }),
{
    let r = crate::space::map_spec(s, e, loc, activate);
    lemma_find_index(r, e.data().id);
}

/// A move grab follows the pointer alone: after any non-empty run of
/// pointer motions during a move grab whose window stays live, the grab is
/// still active and the window stands at its initial location plus the
/// pointer's travel from the grab's start to the last position, rounded to
/// whole units; the positions in between make no difference.
pub proof fn lemma_move_follows_pointer(
    states: Seq<NoWayState>,
    positions: Seq<FixedPoint>,
    replies: Seq<MotionReply>,
    g: MoveSurfaceGrab,
)
    requires
        positions.len() > 0,
        states.len() == positions.len() + 1,
        replies.len() == positions.len(),
        forall|i: int| 0 <= i < states.len() ==> (#[trigger] states[i]).wf(),
        states[0].grab == Some(PointerGrab::Move(g)),
        live_window(states[0].space@, g.window),
        forall|i: int|
            0 <= i < positions.len() ==> motion_post(
                #[trigger] states[i],
                states[i + 1],
                positions[i],
                replies[i],
            ),
    ensures
        ({
            let last = states[positions.len() as int];
            let k = find_index(last.space@, g.window);
            &&& last.grab == Some(PointerGrab::Move(g))
            &&& k >= 0
            &&& last.space@[k].location == move_target(g, positions.last())
        }),
    decreases positions.len(),
{
    let n = positions.len() as int;
    if n > 1 {
        lemma_move_follows_pointer(
            states.take(n),
            positions.take(n - 1),
            replies.take(n - 1),
            g,
        );
        assert(states.take(n)[n - 1] == states[n - 1]);
    }
    let a = states[n - 1];
    let b = states[n];
    assert(motion_post(a, b, positions[n - 1], replies[n - 1]));
    assert(a.wf() && b.wf());
    if n > 1 {
        lemma_find_index(a.space@, g.window);
        let ka = find_index(a.space@, g.window);
        assert(a.grab == Some(PointerGrab::Move(g)));
        assert(live_window(a.space@, g.window)) by {
            let s0 = states[n - 2];
            assert(motion_post(s0, a, positions[n - 2], replies[n - 2]));
            lemma_find_index(s0.space@, g.window);
            lemma_map_on_top(
                s0.space@,
                s0.space@[find_index(s0.space@, g.window)].element,
                move_target(g, positions[n - 2]),
                true,
            );
        }
    }
    lemma_find_index(a.space@, g.window);
    lemma_map_on_top(
        a.space@,
        a.space@[find_index(a.space@, g.window)].element,
        move_target(g, positions[n - 1]),
        true,
    );
}

proof fn lemma_under_ignores_activation(s: Seq<MappedWindow>, p: FixedPoint, n: int)
    requires
        0 <= n <= s.len(),
    ensures
        top_index_under(s.map_values(|w: MappedWindow| crate::space::deactivated(w)), p, n)
            == top_index_under(s, p, n),
    decreases n,
{
    if n > 0 {
        lemma_under_ignores_activation(s, p, n - 1);
    }
}

/// A press with no grab active settles focus and activation: over empty
/// space, keyboard focus is cleared and no window is active; over a window,
/// that window gets keyboard focus and is the only active one. Pressing again
/// at the same place changes nothing more.
pub proof fn lemma_press_focus(s: Seq<MappedWindow>, p: FixedPoint)
    requires
        ids_unique(s),
    ensures
        ({
            let s1 = press_space(s, p);
            &&& s1.len() == s.len()
            &&& press_target(s, p) is None ==> forall|i: int|
                0 <= i < s1.len() ==> !(#[trigger] s1[i]).element.data().activated
            &&& press_target(s, p) is Some ==> forall|i: int|
                0 <= i < s1.len() ==> ((#[trigger] s1[i]).element.data().activated <==> id_of(s1[i])
                    == press_target(s, p)->0)
            &&& press_space(s1, p) == s1
            &&& press_target(s1, p) == press_target(s, p)
        }),
{
    let n = s.len() as int;
    let k = top_index_under(s, p, n);
    let s1 = press_space(s, p);
    lemma_top_index_bounds(s, p, n);
    if k >= 0 {
        let id = id_of(s[k]);
        lemma_find_index(s, id);
        assert(find_index(s, id) == k);
        let rest = s.remove(k);
        crate::space::lemma_remove_unique(s, k);
        assert(s1 == crate::space::insert_spec(rest, s[k], true));
        assert(s1.len() == n);
        assert forall|i: int| 0 <= i < s1.len() implies ((#[trigger] s1[i]).element.data().activated
            <==> id_of(s1[i]) == id) by {
            if i < n - 1 {
                assert(id_of(rest[i]) != id);
            }
        }
        assert(top_index_under(s1, p, n) == n - 1);
        lemma_find_index(s1, id);
        assert(find_index(s1, id) == n - 1);
        let s2 = press_space(s1, p);
        assert(s2 =~= s1);
    } else {
        lemma_under_ignores_activation(s, p, n);
        assert(top_index_under(s1, p, n) == -1);
        assert(press_space(s1, p) =~= s1);
    }
}

proof fn lemma_top_index_bounds(s: Seq<MappedWindow>, p: FixedPoint, n: int)
    requires
        0 <= n <= s.len(),
    ensures
        -1 <= top_index_under(s, p, n) < n,
        top_index_under(s, p, n) >= 0 ==> crate::geometry::box_contains(
            s[top_index_under(s, p, n)].location,
            s[top_index_under(s, p, n)].element.data().size,
            p,
        ),
    decreases n,
{
    if n > 0 {
        lemma_top_index_bounds(s, p, n - 1);
    }
}

/// A move grab's result depends on the last pointer position alone: two
/// runs of motions from the same move grab, over windows that stay live, that
/// end at the same position leave the window at the same location.
pub proof fn lemma_move_path_independent(
    states1: Seq<NoWayState>,
    positions1: Seq<FixedPoint>,
    replies1: Seq<MotionReply>,
    states2: Seq<NoWayState>,
    positions2: Seq<FixedPoint>,
    replies2: Seq<MotionReply>,
    g: MoveSurfaceGrab,
)
    requires
        positions1.len() > 0,
        states1.len() == positions1.len() + 1,
        replies1.len() == positions1.len(),
        forall|i: int| 0 <= i < states1.len() ==> (#[trigger] states1[i]).wf(),
        states1[0].grab == Some(PointerGrab::Move(g)),
        live_window(states1[0].space@, g.window),
        forall|i: int|
            0 <= i < positions1.len() ==> motion_post(
                #[trigger] states1[i],
                states1[i + 1],
                positions1[i],
                replies1[i],
            ),
        positions2.len() > 0,
        states2.len() == positions2.len() + 1,
        replies2.len() == positions2.len(),
        forall|i: int| 0 <= i < states2.len() ==> (#[trigger] states2[i]).wf(),
        states2[0].grab == Some(PointerGrab::Move(g)),
        live_window(states2[0].space@, g.window),
        forall|i: int|
            0 <= i < positions2.len() ==> motion_post(
                #[trigger] states2[i],
                states2[i + 1],
                positions2[i],
                replies2[i],
            ),
        positions1.last() == positions2.last(),
    ensures
        ({
            let last1 = states1[positions1.len() as int];
            let last2 = states2[positions2.len() as int];
            last1.space@[find_index(last1.space@, g.window)].location == last2.space@[find_index(
                last2.space@,
                g.window,
            )].location
        }),
{
    lemma_move_follows_pointer(states1, positions1, replies1, g);
    lemma_move_follows_pointer(states2, positions2, replies2, g);
}

/// How many of `replies` ask for the initial configure.
pub open spec fn initial_configures_sent(replies: Seq<CommitReply>) -> nat
    decreases replies.len(),
{
    if replies.len() == 0 {
        0
    } else {
        initial_configures_sent(replies.drop_last()) + if replies.last().send_initial_configure {
            1nat
        } else {
            0nat
        }
    }
}

proof fn lemma_commit_keeps_toplevel(a: NoWayState, b: NoWayState, surface: u64, client: u64, size: Size, r: CommitReply)
    requires
        a.wf(),
        b.wf(),
        mapped_toplevel(a.space@, surface),
        surface_index(a.surfaces@, surface) >= 0,
        commit_post(a, b, surface, client, size, r),
    ensures
        mapped_toplevel(b.space@, surface),
        surface_index(b.surfaces@, surface) == surface_index(a.surfaces@, surface),
        ({
            let k = surface_index(a.surfaces@, surface);
            &&& b.surfaces@[k] == commit_spec(a.surfaces@[k], true).0
            &&& r == commit_spec(a.surfaces@[k], true).1
        }),
{
    let k = surface_index(a.surfaces@, surface);
    lemma_surface_index(a.surfaces@, surface);
    lemma_surface_index(b.surfaces@, surface);
    assert(b.surfaces@[k].id == surface);
    lemma_find_index(a.space@, surface);
    lemma_find_index(b.space@, surface);
    let kw = find_index(a.space@, surface);
    assert(b.space@[kw].element.data().id == surface);
}

/// One initial configure per toplevel, over the compositor's commits: for
/// any run of one or more commits of a mapped toplevel whose initial
/// configure has not been sent, the first commit asks for it and no later one
/// does, however many there are.
pub proof fn lemma_commits_configure_once(
    states: Seq<NoWayState>,
    replies: Seq<CommitReply>,
    sizes: Seq<Size>,
    surface: u64,
    client: u64,
)
    requires
        replies.len() >= 1,
        states.len() == replies.len() + 1,
        sizes.len() == replies.len(),
        forall|i: int| 0 <= i < states.len() ==> (#[trigger] states[i]).wf(),
        mapped_toplevel(states[0].space@, surface),
        surface_index(states[0].surfaces@, surface) >= 0,
        states[0].surfaces@[surface_index(states[0].surfaces@, surface)].stage is Uninitialized,
        forall|i: int|
            0 <= i < replies.len() ==> commit_post(
                #[trigger] states[i],
                states[i + 1],
                surface,
                client,
                sizes[i],
                replies[i],
            ),
    ensures
        replies[0].send_initial_configure,
        initial_configures_sent(replies) == 1,
    decreases replies.len(),
{
    let n = replies.len() as int;
    let k = surface_index(states[0].surfaces@, surface);
    if n == 1 {
        assert(commit_post(states[0], states[1], surface, client, sizes[0], replies[0]));
        lemma_commit_keeps_toplevel(states[0], states[1], surface, client, sizes[0], replies[0]);
        assert(replies[0].send_initial_configure);
        assert(replies.drop_last().len() == 0);
        assert(initial_configures_sent(replies.drop_last()) == 0);
    } else {
        lemma_commits_configure_once(
            states.take(n),
            replies.take(n - 1),
            sizes.take(n - 1),
            surface,
            client,
        );
        assert(replies.take(n - 1) =~= replies.drop_last());
        assert(replies.take(n - 1)[0] == replies[0]);
        lemma_commits_keep_configured(states, replies, sizes, surface, client, n - 1);
        let a = states[n - 1];
        assert(commit_post(a, states[n], surface, client, sizes[n - 1], replies[n - 1]));
        lemma_commit_keeps_toplevel(a, states[n], surface, client, sizes[n - 1], replies[n - 1]);
        assert(!replies[n - 1].send_initial_configure);
        assert(replies.last() == replies[n - 1]);
        assert(initial_configures_sent(replies.drop_last()) == 1);
    }
}

/// After `m` >= 1 commits of the run, the toplevel is still mapped, still
/// known, and past its initial configure.
proof fn lemma_commits_keep_configured(
    states: Seq<NoWayState>,
    replies: Seq<CommitReply>,
    sizes: Seq<Size>,
    surface: u64,
    client: u64,
    m: int,
)
    requires
        1 <= m <= replies.len(),
        states.len() == replies.len() + 1,
        sizes.len() == replies.len(),
        forall|i: int| 0 <= i < states.len() ==> (#[trigger] states[i]).wf(),
        mapped_toplevel(states[0].space@, surface),
        surface_index(states[0].surfaces@, surface) >= 0,
        forall|i: int|
            0 <= i < replies.len() ==> commit_post(
                #[trigger] states[i],
                states[i + 1],
                surface,
                client,
                sizes[i],
                replies[i],
            ),
    ensures
        mapped_toplevel(states[m].space@, surface),
        surface_index(states[m].surfaces@, surface) >= 0,
        !(states[m].surfaces@[surface_index(states[m].surfaces@, surface)].stage is Uninitialized),
    decreases m,
{
    if m > 1 {
        lemma_commits_keep_configured(states, replies, sizes, surface, client, m - 1);
    } else {
        lemma_commits_mapped(states, replies, sizes, surface, client, 0);
    }
    let a = states[m - 1];
    lemma_commits_mapped(states, replies, sizes, surface, client, m - 1);
    assert(commit_post(a, states[m], surface, client, sizes[m - 1], replies[m - 1]));
    lemma_commit_keeps_toplevel(a, states[m], surface, client, sizes[m - 1], replies[m - 1]);
}

proof fn lemma_commits_mapped(
    states: Seq<NoWayState>,
    replies: Seq<CommitReply>,
    sizes: Seq<Size>,
    surface: u64,
    client: u64,
    m: int,
)
    requires
        0 <= m <= replies.len(),
        states.len() == replies.len() + 1,
        sizes.len() == replies.len(),
        forall|i: int| 0 <= i < states.len() ==> (#[trigger] states[i]).wf(),
        mapped_toplevel(states[0].space@, surface),
        surface_index(states[0].surfaces@, surface) >= 0,
        forall|i: int|
            0 <= i < replies.len() ==> commit_post(
                #[trigger] states[i],
                states[i + 1],
                surface,
                client,
                sizes[i],
                replies[i],
            ),
    ensures
        mapped_toplevel(states[m].space@, surface),
        surface_index(states[m].surfaces@, surface) >= 0,
    decreases m,
{
    if m > 0 {
        lemma_commits_mapped(states, replies, sizes, surface, client, m - 1);
        let a = states[m - 1];
        assert(commit_post(a, states[m], surface, client, sizes[m - 1], replies[m - 1]));
        lemma_commit_keeps_toplevel(a, states[m], surface, client, sizes[m - 1], replies[m - 1]);
    }
}

/// A call on the compositor, as far as resizes are concerned.
#[derive(Clone, Copy, Debug, PartialEq, Eq, Structural)]
pub enum SeatCall {
    /// `pointer_motion(p)`.
    Motion(FixedPoint),
    /// `pointer_button(button, pressed, serial)`.
    Button(u32, bool, u32),
    /// `commit_xdg_surface(surface, client, size)`.
    Commit(u64, u64, Size),
    /// `resize_request(surface, serial, edges)`.
    Resize(u64, u32, ResizeEdges),
}

/// `b` is a state that the call `c` may leave behind from `a`.
pub open spec fn call_post(a: NoWayState, b: NoWayState, c: SeatCall) -> bool {
    match c {
        SeatCall::Motion(p) => exists|r: MotionReply| motion_post(a, b, p, r),
        SeatCall::Button(button, pressed, serial) => exists|r: ButtonReply|
            button_post(a, b, button, pressed, serial, r),
        SeatCall::Commit(surface, client, size) => exists|r: CommitReply|
            commit_post(a, b, surface, client, size, r),
        SeatCall::Resize(surface, serial, edges) => exists|r: bool|
            resize_post(a, b, surface, serial, edges, r),
    }
}

/// Whether `c` is a resize request of surface `t`.
pub open spec fn requests_resize_of(c: SeatCall, t: u64) -> bool {
    match c {
        SeatCall::Resize(s, _, _) => s == t,
        _ => false,
    }
}

/// Whether `c` is a commit of surface `t`.
pub open spec fn commits(c: SeatCall, t: u64) -> bool {
    match c {
        SeatCall::Commit(s, _, _) => s == t,
        _ => false,
    }
}

/// `after` is the waiting state of the resize that `before` is under way.
pub open spec fn released_from(before: ResizeState, after: ResizeState) -> bool {
    match before {
        ResizeState::Resizing(d) => after == ResizeState::WaitingForCommit(d),
        _ => false,
    }
}

/// The resize state of surface `id`; an unknown surface is not resizing.
pub open spec fn resize_state_in(st: NoWayState, id: u64) -> ResizeState {
    let j = surface_index(st.surfaces@, id);
    if j >= 0 {
        crate::surface::resize_state_of(st.surfaces@[j])
    } else {
        ResizeState::NotResizing
    }
}

proof fn lemma_index_other(ss1: Seq<SurfaceState>, ss2: Seq<SurfaceState>, j: int, t: u64)
    requires
        surface_ids_unique(ss2),
        0 <= j < ss1.len(),
        ss2.len() == ss1.len(),
        ss1[j].id != t,
        ss2[j].id != t,
        forall|i: int| 0 <= i < ss1.len() && i != j ==> ss2[i] == ss1[i],
    ensures
        surface_index(ss2, t) == surface_index(ss1, t),
        surface_index(ss1, t) >= 0 ==> ss2[surface_index(ss2, t)] == ss1[surface_index(ss1, t)],
{
    lemma_surface_index(ss1, t);
    lemma_surface_index(ss2, t);
    let i1 = surface_index(ss1, t);
    if i1 >= 0 {
        assert(ss2[i1] == ss1[i1]);
    } else {
        let i2 = surface_index(ss2, t);
        if i2 >= 0 {
            assert(ss2[i2] == ss1[i2]);
        }
    }
}

proof fn lemma_index_same(ss: Seq<SurfaceState>, j: int, t: u64)
    requires
        surface_ids_unique(ss),
        0 <= j < ss.len(),
        ss[j].id == t,
    ensures
        surface_index(ss, t) == j,
{
    lemma_surface_index(ss, t);
}

/// How one call moves the resize state of surface `t`: only from not
/// resizing to resizing by an accepted resize request, from resizing to
/// waiting for a commit (same resize) by the button release that ends the
/// grab, and from waiting back to not resizing by a commit of `t`, which
/// always brings it back. A resize request of `t` while `t` is resizing or
/// waiting is outside this.
pub proof fn lemma_resize_call(a: NoWayState, b: NoWayState, c: SeatCall, t: u64)
    requires
        a.wf(),
        b.wf(),
        call_post(a, b, c),
        requests_resize_of(c, t) ==> resize_state_in(a, t) is NotResizing,
    ensures
        ({
            let before = resize_state_in(a, t);
            let after = resize_state_in(b, t);
            &&& after != before ==> {
                ||| before is NotResizing && after is Resizing && c is Resize
                ||| released_from(before, after) && c is Button
                ||| before is WaitingForCommit && after is NotResizing && commits(c, t)
            }
            &&& before is WaitingForCommit && commits(c, t) ==> after is NotResizing
        }),
{
    lemma_surface_index(a.surfaces@, t);
    lemma_surface_index(b.surfaces@, t);
    match c {
        SeatCall::Motion(p) => {
            let r = choose|r: MotionReply| motion_post(a, b, p, r);
        },
        SeatCall::Button(button, pressed, serial) => {
            let r = choose|r: ButtonReply| button_post(a, b, button, pressed, serial, r);
            if !pressed {
                match a.grab {
                    Some(PointerGrab::Resize(g)) => {
                        let j = surface_index(a.surfaces@, g.window);
                        lemma_surface_index(a.surfaces@, g.window);
                        if b.surfaces@ != a.surfaces@ {
                            assert(j >= 0);
                            if g.window == t {
                                lemma_index_same(b.surfaces@, j, t);
                            } else {
                                lemma_index_other(a.surfaces@, b.surfaces@, j, t);
                            }
                        }
                    },
                    _ => {},
                }
            }
        },
        SeatCall::Commit(surface, client, size) => {
            let r = choose|r: CommitReply| commit_post(a, b, surface, client, size, r);
            let ss = registered(a.surfaces@, surface, client);
            let k = surface_index(ss, surface);
            lemma_surface_index(a.surfaces@, surface);
            if surface_index(a.surfaces@, surface) < 0 {
                assert(ss.drop_last() =~= a.surfaces@);
            }
            if surface == t {
                lemma_index_same(b.surfaces@, k, t);
            } else {
                if surface_index(a.surfaces@, surface) < 0 {
                    assert(surface_index(ss, t) == surface_index(a.surfaces@, t));
                    lemma_surface_index(ss, t);
                    if surface_index(ss, t) >= 0 {
                        assert(ss[surface_index(ss, t)] == a.surfaces@[surface_index(ss, t)]);
                    }
                }
                lemma_index_other(ss, b.surfaces@, k, t);
            }
        },
        SeatCall::Resize(surface, serial, edges) => {
            let r = choose|r: bool| resize_post(a, b, surface, serial, edges, r);
            if r {
                let j = surface_index(a.surfaces@, surface);
                lemma_surface_index(a.surfaces@, surface);
                if surface == t {
                    lemma_index_same(b.surfaces@, j, t);
                } else {
                    lemma_index_other(a.surfaces@, b.surfaces@, j, t);
                }
            }
        },
    }
}

/// How many calls of the run started a resize of `t`.
pub open spec fn resizes_started(states: Seq<NoWayState>, t: u64) -> nat
    decreases states.len(),
{
    if states.len() <= 1 {
        0
    } else {
        let before = resize_state_in(states[states.len() - 2], t);
        let after = resize_state_in(states.last(), t);
        resizes_started(states.drop_last(), t) + if before is NotResizing && after is Resizing {
            1nat
        } else {
            0nat
        }
    }
}

/// How many calls of the run brought `t` back to not resizing.
pub open spec fn resizes_ended(states: Seq<NoWayState>, t: u64) -> nat
    decreases states.len(),
{
    if states.len() <= 1 {
        0
    } else {
        let before = resize_state_in(states[states.len() - 2], t);
        let after = resize_state_in(states.last(), t);
        resizes_ended(states.drop_last(), t) + if !(before is NotResizing) && after is NotResizing {
            1nat
        } else {
            0nat
        }
    }
}

/// Each resize interaction over the compositor's calls runs once through its
/// states: over any run of motions, button events, commits and resize
/// requests, starting with `t` not resizing and with no resize request of
/// `t` while it is resizing or waiting, `t` comes back to not resizing once
/// for each resize started, less the one still under way, if any.
pub proof fn lemma_resize_once_per_interaction(states: Seq<NoWayState>, calls: Seq<SeatCall>, t: u64)
    requires
        states.len() == calls.len() + 1,
        forall|i: int| 0 <= i < states.len() ==> (#[trigger] states[i]).wf(),
        forall|i: int| 0 <= i < calls.len() ==> call_post(#[trigger] states[i], states[i + 1], calls[i]),
        forall|i: int|
            0 <= i < calls.len() && requests_resize_of(#[trigger] calls[i], t) ==> resize_state_in(
                states[i],
                t,
            ) is NotResizing,
        resize_state_in(states[0], t) is NotResizing,
    ensures
        resizes_ended(states, t) + (if resize_state_in(states.last(), t) is NotResizing {
            0nat
        } else {
            1nat
        }) == resizes_started(states, t),
    decreases states.len(),
{
    let n = states.len() as int;
    if n > 1 {
        let prev = states.drop_last();
        let pc = calls.drop_last();
        assert forall|i: int| 0 <= i < pc.len() implies call_post(
            #[trigger] prev[i],
            prev[i + 1],
            pc[i],
        ) by {
            assert(call_post(states[i], states[i + 1], calls[i]));
        }
        assert forall|i: int|
            0 <= i < pc.len() && requests_resize_of(#[trigger] pc[i], t) implies resize_state_in(
                prev[i],
                t,
            ) is NotResizing by {
            assert(calls[i] == pc[i]);
        }
        assert forall|i: int| 0 <= i < prev.len() implies (#[trigger] prev[i]).wf() by {
            assert(states[i].wf());
        }
        lemma_resize_once_per_interaction(prev, pc, t);
        assert(call_post(states[n - 2], states[n - 1], calls[n - 2]));
        lemma_resize_call(states[n - 2], states[n - 1], calls[n - 2], t);
        assert(prev.last() == states[n - 2]);
    }
}

} // verus!
