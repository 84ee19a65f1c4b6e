//! Per-surface state: the configure handshake, the pending decoration mode,
//! and the resize state that a resize grab and the surface's commits share.
use vstd::prelude::*;

use crate::geometry::{Point, Rect, Size};

verus! {

/// Which window edges a resize moves.
#[derive(Clone, Copy, Debug, PartialEq, Eq, Structural)]
pub struct ResizeEdges {
    pub top: bool,
    pub bottom: bool,
    pub left: bool,
    pub right: bool,
}

impl ResizeEdges {
    /// Reads the shell protocol's edge value, a mask of top (1), bottom (2),
    /// left (4) and right (8).
    pub fn from_bits(bits: u32) -> (r: ResizeEdges)
        ensures
            r.top == (bits & 1 != 0),
            r.bottom == (bits & 2 != 0),
            r.left == (bits & 4 != 0),
            r.right == (bits & 8 != 0),
    {
        ResizeEdges {
            top: bits & 1 != 0,
            bottom: bits & 2 != 0,
            left: bits & 4 != 0,
            right: bits & 8 != 0,
        }
    }
}

/// What a resize started from.
#[derive(Clone, Copy, Debug, PartialEq, Eq, Structural)]
pub struct ResizeData {
    pub edges: ResizeEdges,
    pub initial_window_location: Point,
    pub initial_window_size: Size,
}

/// Where a surface stands in a resize.
#[derive(Clone, Copy, Debug, PartialEq, Eq, Structural)]
pub enum ResizeState {
    NotResizing,
    /// A resize grab is active.
    Resizing(ResizeData),
    /// The grab ended; the client has yet to commit the last size asked of it.
    WaitingForCommit(ResizeData),
}

/// Side record that a surface carries once it has been traversed on commit.
#[derive(Clone, Copy, Debug, PartialEq, Eq, Structural)]
pub struct SurfaceData {
    pub geometry: Option<Rect>,
    pub resize_state: ResizeState,
}

/// Where a surface stands in the configure handshake.
#[derive(Clone, Copy, Debug, PartialEq, Eq, Structural)]
pub enum ConfigureStage {
    /// No configure was sent yet.
    Uninitialized,
    /// The initial configure was sent; the client has not committed since.
    ConfigureSent,
    /// The client committed after the initial configure.
    Committed,
}

/// Decoration modes of the decoration protocol.
#[derive(Clone, Copy, Debug, PartialEq, Eq, Structural)]
pub enum DecorationMode {
    ClientSide,
    ServerSide,
}

/// The compositor's record of one surface.
#[derive(Clone, Copy, Debug, PartialEq, Eq, Structural)]
pub struct SurfaceState {
    pub id: u64,
    pub client: u64,
    /// Attached on the first commit traversal.
    pub data: Option<SurfaceData>,
    pub stage: ConfigureStage,
    /// Decoration mode to be sent with the next configure.
    pub pending_decoration: Option<DecorationMode>,
}

/// What a commit asks of the protocol layer.
#[derive(Clone, Copy, Debug, PartialEq, Eq, Structural)]
pub struct CommitReply {
    /// Send the initial configure now.
    pub send_initial_configure: bool,
    /// The resize whose last size the client has now committed, if any.
    pub finished_resize: Option<ResizeData>,
}

/// The resize state after a commit.
pub open spec fn resize_after_commit(r: ResizeState) -> ResizeState {
    match r {
        ResizeState::WaitingForCommit(_) => ResizeState::NotResizing,
        _ => r,
    }
}

/// The resize state after the resize grab was released.
pub open spec fn resize_after_release(r: ResizeState) -> ResizeState {
    match r {
        ResizeState::Resizing(d) => ResizeState::WaitingForCommit(d),
        _ => r,
    }
}

/// The side record after a commit: attached if missing, resize advanced.
pub open spec fn data_after_commit(d: Option<SurfaceData>) -> SurfaceData {
    match d {
        Some(sd) => SurfaceData { resize_state: resize_after_commit(sd.resize_state), ..sd },
        None => SurfaceData { geometry: None, resize_state: ResizeState::NotResizing },
    }
}

/// Whether a commit sends the initial configure: only for a mapped toplevel
/// that has had none.
pub open spec fn commit_sends_initial(s: SurfaceState, mapped_toplevel: bool) -> bool {
    mapped_toplevel && s.stage is Uninitialized
}

pub open spec fn stage_after_commit(s: SurfaceState, mapped_toplevel: bool) -> ConfigureStage {
    match s.stage {
        ConfigureStage::Uninitialized => if mapped_toplevel {
            ConfigureStage::ConfigureSent
        } else {
            ConfigureStage::Uninitialized
        },
        _ => ConfigureStage::Committed,
    }
}

pub open spec fn commit_spec(s: SurfaceState, mapped_toplevel: bool) -> (SurfaceState, CommitReply) {
    let finished = match s.data {
        Some(sd) => match sd.resize_state {
            ResizeState::WaitingForCommit(rd) => Some(rd),
            _ => None,
        },
        None => None,
    };
    (
        SurfaceState {
            data: Some(data_after_commit(s.data)),
            stage: stage_after_commit(s, mapped_toplevel),
            ..s
        },
        CommitReply {
            send_initial_configure: commit_sends_initial(s, mapped_toplevel),
            finished_resize: finished,
        },
    )
}

/// Something that happens to a surface.
#[derive(Clone, Copy, Debug, PartialEq, Eq, Structural)]
pub enum SurfaceEvent {
    /// A commit; the flag tells whether the surface is a mapped toplevel.
    Commit(bool),
    RequestMode(DecorationMode),
    UnsetMode,
    /// A resize grab was installed on the surface.
    ResizeStarted(ResizeData),
    /// The surface's resize grab was released.
    ResizeReleased,
}

pub open spec fn resize_state_of(s: SurfaceState) -> ResizeState {
    match s.data {
        Some(sd) => sd.resize_state,
        None => ResizeState::NotResizing,
    }
}

pub open spec fn with_resize_state(s: SurfaceState, rs: ResizeState) -> SurfaceState {
    SurfaceState {
        data: Some(
            SurfaceData {
                geometry: match s.data {
                    Some(sd) => sd.geometry,
                    None => None,
                },
                resize_state: rs,
            },
        ),
        ..s
    }
}

/// The surface after one event.
pub open spec fn surface_step(s: SurfaceState, ev: SurfaceEvent) -> SurfaceState {
    match ev {
        SurfaceEvent::Commit(mapped) => commit_spec(s, mapped).0,
        SurfaceEvent::RequestMode(m) => SurfaceState { pending_decoration: Some(m), ..s },
        SurfaceEvent::UnsetMode => SurfaceState {
            pending_decoration: Some(DecorationMode::ClientSide),
            ..s
        },
        SurfaceEvent::ResizeStarted(d) => with_resize_state(s, ResizeState::Resizing(d)),
        SurfaceEvent::ResizeReleased => with_resize_state(
            s,
            resize_after_release(resize_state_of(s)),
        ),
    }
}

/// The surface after the events `evs`, in order.
pub open spec fn surface_run(s: SurfaceState, evs: Seq<SurfaceEvent>) -> SurfaceState
    decreases evs.len(),
{
    if evs.len() == 0 {
        s
    } else {
        surface_step(surface_run(s, evs.drop_last()), evs.last())
    }
}

/// How many initial configures the events `evs` send.
pub open spec fn initial_configures(s: SurfaceState, evs: Seq<SurfaceEvent>) -> nat
    decreases evs.len(),
{
    if evs.len() == 0 {
        0
    } else {
        let before = surface_run(s, evs.drop_last());
        let sent: nat = match evs.last() {
            SurfaceEvent::Commit(mapped) => if commit_spec(before, mapped).1.send_initial_configure {
                1
            } else {
                0
            },
            _ => 0,
        };
        initial_configures(s, evs.drop_last()) + sent
    }
}

/// One initial configure per surface: over any sequence of commits,
/// decoration requests and resizes of a new surface, at most one initial
/// configure is sent, and exactly one once the surface has been committed as
/// a mapped toplevel.
pub proof fn lemma_single_initial_configure(s: SurfaceState, evs: Seq<SurfaceEvent>)
    requires
        s.stage is Uninitialized,
    ensures
        initial_configures(s, evs) <= 1,
        initial_configures(s, evs) == 1 <==> exists|i: int|
            0 <= i < evs.len() && evs[i] == SurfaceEvent::Commit(true),
        initial_configures(s, evs) == 0 <==> surface_run(s, evs).stage is Uninitialized,
    decreases evs.len(),
{
    if evs.len() > 0 {
        let prev = evs.drop_last();
        lemma_single_initial_configure(s, prev);
        if exists|i: int| 0 <= i < prev.len() && prev[i] == SurfaceEvent::Commit(true) {
            let i = choose|i: int| 0 <= i < prev.len() && prev[i] == SurfaceEvent::Commit(true);
            assert(evs[i] == SurfaceEvent::Commit(true));
        }
        if exists|i: int| 0 <= i < evs.len() && evs[i] == SurfaceEvent::Commit(true) {
            let i = choose|i: int| 0 <= i < evs.len() && evs[i] == SurfaceEvent::Commit(true);
            if i < prev.len() {
                assert(prev[i] == SurfaceEvent::Commit(true));
            }
        }
    }
}

/// A resize passes through its states in one order: the resize state changes
/// only from not resizing to resizing when a resize grab is installed, from
/// resizing to waiting for a commit when that grab is released, and from
/// waiting to not resizing at a commit of the surface, which is the only way
/// back. A resize that starts while another is under way is outside this.
pub proof fn lemma_resize_cycle(s: SurfaceState, ev: SurfaceEvent)
    requires
        ev is ResizeStarted ==> resize_state_of(s) is NotResizing,
    ensures
        ({
            let before = resize_state_of(s);
            let after = resize_state_of(surface_step(s, ev));
            &&& after != before ==> {
                ||| before is NotResizing && after is Resizing && ev is ResizeStarted
                ||| before is Resizing && after is WaitingForCommit && ev is ResizeReleased
                ||| before is WaitingForCommit && after is NotResizing && ev is Commit
            }
            &&& before is WaitingForCommit && ev is Commit ==> after is NotResizing
        }),
{
}

/// How many resizes the events `evs` start.
pub open spec fn resize_starts(evs: Seq<SurfaceEvent>) -> nat
    decreases evs.len(),
{
    if evs.len() == 0 {
        0
    } else {
        resize_starts(evs.drop_last()) + if evs.last() is ResizeStarted {
            1nat
        } else {
            0nat
        }
    }
}

/// How many times the events `evs` bring the surface back to not resizing.
pub open spec fn resize_returns(s: SurfaceState, evs: Seq<SurfaceEvent>) -> nat
    decreases evs.len(),
{
    if evs.len() == 0 {
        0
    } else {
        let before = surface_run(s, evs.drop_last());
        let back = !(resize_state_of(before) is NotResizing) && resize_state_of(
            surface_step(before, evs.last()),
        ) is NotResizing;
        resize_returns(s, evs.drop_last()) + if back {
            1nat
        } else {
            0nat
        }
    }
}

/// No resize of `evs` starts while another is under way.
pub open spec fn no_restart(s: SurfaceState, evs: Seq<SurfaceEvent>) -> bool {
    forall|i: int|
        0 <= i < evs.len() && (#[trigger] evs[i]) is ResizeStarted ==> resize_state_of(
            surface_run(s, evs.take(i)),
        ) is NotResizing
}

/// Each resize ends once: over any run of events on a surface that is not
/// resizing, in which no resize starts while another is under way, the
/// surface comes back to not resizing exactly once for each resize started,
/// less the one still under way, if any.
pub proof fn lemma_resize_once(s: SurfaceState, evs: Seq<SurfaceEvent>)
    requires
        resize_state_of(s) is NotResizing,
        no_restart(s, evs),
    ensures
        resize_returns(s, evs) + (if resize_state_of(surface_run(s, evs)) is NotResizing {
            0nat
        } else {
            1nat
        }) == resize_starts(evs),
    decreases evs.len(),
{
    if evs.len() > 0 {
        let prev = evs.drop_last();
        let n = prev.len() as int;
        assert forall|i: int|
            0 <= i < prev.len() && (#[trigger] prev[i]) is ResizeStarted implies resize_state_of(
            surface_run(s, prev.take(i)),
        ) is NotResizing by {
            assert(evs[i] == prev[i]);
            assert(evs.take(i) =~= prev.take(i));
        }
        lemma_resize_once(s, prev);
        let before = surface_run(s, prev);
        if evs.last() is ResizeStarted {
            assert(evs[n] is ResizeStarted);
            assert(evs.take(n) =~= prev);
        }
        lemma_resize_cycle(before, evs.last());
    }
}

impl SurfaceState {
    pub open spec fn new_spec(id: u64, client: u64) -> SurfaceState {
        SurfaceState {
            id,
            client,
            data: None,
            stage: ConfigureStage::Uninitialized,
            pending_decoration: None,
        }
    }

    /// A surface that the client just created.
    pub fn new(id: u64, client: u64) -> (r: SurfaceState)
        ensures
            r == SurfaceState::new_spec(id, client),
    {
        SurfaceState {
            id,
            client,
            data: None,
            stage: ConfigureStage::Uninitialized,
            pending_decoration: None,
        }
    }

    /// Handles a commit of this surface. The side record is attached if it
    /// is missing; the initial configure is asked for when the surface is a
    /// mapped toplevel that has had none; a resize that waited for this
    /// commit ends.
    pub fn commit(&mut self, mapped_toplevel: bool) -> (r: CommitReply)
        ensures
            (*final(self), r) == commit_spec(*old(self), mapped_toplevel),
    {
        let send = mapped_toplevel && matches!(self.stage, ConfigureStage::Uninitialized);
        let mut finished: Option<ResizeData> = None;
        let data = match self.data {
            Some(sd) => {
                let resize_state = match sd.resize_state {
                    ResizeState::WaitingForCommit(rd) => {
                        finished = Some(rd);
                        ResizeState::NotResizing
                    },
                    other => other,
                };
                SurfaceData { geometry: sd.geometry, resize_state }
            },
            None => SurfaceData { geometry: None, resize_state: ResizeState::NotResizing },
        };
        self.data = Some(data);
        self.stage =
            match self.stage {
                ConfigureStage::Uninitialized => if mapped_toplevel {
                    ConfigureStage::ConfigureSent
                } else {
                    ConfigureStage::Uninitialized
                },
                _ => ConfigureStage::Committed,
            };
        CommitReply { send_initial_configure: send, finished_resize: finished }
    }

    /// Records the decoration mode a client asked for. Returns whether a
    /// configure carrying it is to be sent now, which is when the initial
    /// configure has been sent; otherwise the mode goes out with it.
    pub fn request_mode(&mut self, mode: DecorationMode) -> (send_configure: bool)
        ensures
            *final(self) == (SurfaceState { pending_decoration: Some(mode), ..*old(self) }),
            send_configure == !(old(self).stage is Uninitialized),
    {
        self.pending_decoration = Some(mode);
        !matches!(self.stage, ConfigureStage::Uninitialized)
    }

    /// The client withdrew its decoration preference: client-side
    /// decorations apply. Returns whether a configure is to be sent now.
    pub fn unset_mode(&mut self) -> (send_configure: bool)
        ensures
            *final(self) == (SurfaceState {
                pending_decoration: Some(DecorationMode::ClientSide),
                ..*old(self)
            }),
            send_configure == !(old(self).stage is Uninitialized),
    {
        self.request_mode(DecorationMode::ClientSide)
    }

    /// The resize state; a surface without side record is not resizing.
    pub fn resize_state(&self) -> (r: ResizeState)
        ensures
            r == (match self.data {
                Some(sd) => sd.resize_state,
                None => ResizeState::NotResizing,
            }),
    {
        match self.data {
            Some(sd) => sd.resize_state,
            None => ResizeState::NotResizing,
        }
    }

    /// Sets the resize state, attaching the side record if it is missing.
    pub fn set_resize_state(&mut self, rs: ResizeState)
        ensures
            *final(self) == (SurfaceState {
                data: Some(
                    SurfaceData {
                        geometry: match old(self).data {
                            Some(sd) => sd.geometry,
                            None => None,
                        },
                        resize_state: rs,
                    },
                ),
                ..*old(self)
            }),
    {
        let geometry = match self.data {
            Some(sd) => sd.geometry,
            None => None,
        };
        self.data = Some(SurfaceData { geometry, resize_state: rs });
    }
}

} // verus!
