//! Tunnel relay: one link per accepted local connection, pumping bytes
//! both ways between the inbound socket and the session-backed outbound
//! one.
//!
//! The link is a state machine over plain events — a chunk read, an
//! end-of-stream, an I/O error on either side.  Each chunk is forwarded
//! to the far side of its direction unchanged and in arrival order; an
//! end-of-stream half-closes the far write side while the other
//! direction keeps draining; the link is torn down only once both
//! directions have finished, or at once on an error.  The sockets and
//! the concurrent pumping live with the caller; every decision is here.

use vstd::prelude::*;

verus! {

/// A pumping direction: from the locally accepted socket toward the
/// peer session, or back.
#[derive(Clone, Copy, Debug, PartialEq, Eq, Structural)]
pub enum Direction {
    Inbound,
    Outbound,
}

/// One direction's phase: still carrying bytes, or drained after its
/// end-of-stream was propagated.
#[derive(Clone, Copy, Debug, PartialEq, Eq, Structural)]
pub enum DirPhase {
    Streaming,
    Drained,
}

/// The state of one tunnel link.
#[derive(Clone, Copy, Debug, PartialEq, Eq, Structural)]
pub struct LinkState {
    pub inbound: DirPhase,
    pub outbound: DirPhase,
    pub failed: bool,
    pub closed: bool,
}

/// What happened on one of the link's sockets.
pub enum LinkEvent {
    /// A chunk arrived on `dir`'s read side.
    Data { dir: Direction, bytes: Vec<u8> },
    /// `dir`'s read side reached end-of-stream.
    Eof { dir: Direction },
    /// An I/O fault on `dir`.
    IoError { dir: Direction },
}

/// Ghost content of a link event.
pub ghost enum LinkEventSem {
    Data { dir: Direction, bytes: Seq<u8> },
    Eof { dir: Direction },
    IoError { dir: Direction },
}

impl LinkEvent {
    /// The event's mathematical content.
    pub open spec fn sem(&self) -> LinkEventSem {
        match self {
            LinkEvent::Data { dir, bytes } => LinkEventSem::Data { dir: *dir, bytes: bytes@ },
            LinkEvent::Eof { dir } => LinkEventSem::Eof { dir: *dir },
            LinkEvent::IoError { dir } => LinkEventSem::IoError { dir: *dir },
        }
    }
}

/// What the caller must do with its sockets.
pub enum LinkAction {
    /// Write the chunk, unchanged, to the far side of `dir`.
    Forward { dir: Direction, bytes: Vec<u8> },
    /// Shut down the write side at the far end of `dir`.
    HalfClose { dir: Direction },
    /// Destroy the link: close both sockets.
    TearDown,
    /// Nothing: the event concerned an already-finished direction.
    Ignore,
}

/// Ghost content of a link action.
pub ghost enum LinkActionSem {
    Forward { dir: Direction, bytes: Seq<u8> },
    HalfClose { dir: Direction },
    TearDown,
    Ignore,
}

impl LinkAction {
    /// The action's mathematical content.
    pub open spec fn sem(&self) -> LinkActionSem {
        match self {
            LinkAction::Forward { dir, bytes } => LinkActionSem::Forward {
                dir: *dir,
                bytes: bytes@,
            },
            LinkAction::HalfClose { dir } => LinkActionSem::HalfClose { dir: *dir },
            LinkAction::TearDown => LinkActionSem::TearDown,
            LinkAction::Ignore => LinkActionSem::Ignore,
        }
    }
}

/// A link that has not yet seen any event.
pub open spec fn fresh_link() -> LinkState {
    LinkState { inbound: DirPhase::Streaming, outbound: DirPhase::Streaming, failed: false, closed: false }
}

/// The named direction's phase.
pub open spec fn phase_of(s: LinkState, dir: Direction) -> DirPhase {
    match dir {
        Direction::Inbound => s.inbound,
        Direction::Outbound => s.outbound,
    }
}

/// `s` with the named direction drained.
pub open spec fn drain_dir(s: LinkState, dir: Direction) -> LinkState {
    match dir {
        Direction::Inbound => LinkState { inbound: DirPhase::Drained, ..s },
        Direction::Outbound => LinkState { outbound: DirPhase::Drained, ..s },
    }
}

/// A link is torn down only once both directions have drained, or on a
/// fault.
pub open spec fn link_wf(s: LinkState) -> bool {
    s.closed ==> (s.failed || (s.inbound == DirPhase::Drained && s.outbound == DirPhase::Drained))
}

/// One step of the link.
pub open spec fn link_step_spec(s: LinkState, ev: LinkEventSem) -> (LinkState, LinkActionSem) {
    if s.closed {
        (s, LinkActionSem::Ignore)
    } else {
        match ev {
            LinkEventSem::Data { dir, bytes } => {
                if phase_of(s, dir) == DirPhase::Streaming {
                    (s, LinkActionSem::Forward { dir, bytes })
                } else {
                    (s, LinkActionSem::Ignore)
                }
            },
            LinkEventSem::Eof { dir } => {
                if phase_of(s, dir) == DirPhase::Streaming {
                    let d = drain_dir(s, dir);
                    let done = d.inbound == DirPhase::Drained && d.outbound == DirPhase::Drained;
                    (LinkState { closed: done, ..d }, LinkActionSem::HalfClose { dir })
                } else {
                    (s, LinkActionSem::Ignore)
                }
            },
            LinkEventSem::IoError { .. } => (
                LinkState { failed: true, closed: true, ..s },
                LinkActionSem::TearDown,
            ),
        }
    }
}

/// A fresh link.
pub fn link_new() -> (s: LinkState)
    ensures
        s == fresh_link(),
        link_wf(s),
{
    LinkState {
        inbound: DirPhase::Streaming,
        outbound: DirPhase::Streaming,
        failed: false,
        closed: false,
    }
}

/// One step of the link: exactly `link_step_spec`; teardown discipline
/// (`link_wf`) is preserved.
pub fn link_step(s: LinkState, ev: LinkEvent) -> (r: (LinkState, LinkAction))
    requires
        link_wf(s),
    ensures
        r.0 == link_step_spec(s, ev.sem()).0,
        r.1.sem() == link_step_spec(s, ev.sem()).1,
        link_wf(r.0),
{
    if s.closed {
        return (s, LinkAction::Ignore);
    }
    match ev {
        LinkEvent::Data { dir, bytes } => {
            let streaming = match dir {
                Direction::Inbound => matches!(s.inbound, DirPhase::Streaming),
                Direction::Outbound => matches!(s.outbound, DirPhase::Streaming),
            };
            if streaming {
                (s, LinkAction::Forward { dir, bytes })
            } else {
                (s, LinkAction::Ignore)
            }
        },
        LinkEvent::Eof { dir } => {
            let streaming = match dir {
                Direction::Inbound => matches!(s.inbound, DirPhase::Streaming),
                Direction::Outbound => matches!(s.outbound, DirPhase::Streaming),
            };
            if streaming {
                let d = match dir {
                    Direction::Inbound => LinkState { inbound: DirPhase::Drained, ..s },
                    Direction::Outbound => LinkState { outbound: DirPhase::Drained, ..s },
                };
                let done = matches!(d.inbound, DirPhase::Drained) && matches!(
                    d.outbound,
                    DirPhase::Drained,
                );
                (LinkState { closed: done, ..d }, LinkAction::HalfClose { dir })
            } else {
                (s, LinkAction::Ignore)
            }
        },
        LinkEvent::IoError { dir: _ } => (
            LinkState { failed: true, closed: true, ..s },
            LinkAction::TearDown,
        ),
    }
}

// ---------------------------------------------------------------------
// Runs and their laws.
// ---------------------------------------------------------------------

/// The actions a link emits over a whole event sequence.
pub open spec fn link_run_actions(s: LinkState, evs: Seq<LinkEventSem>) -> Seq<LinkActionSem>
    decreases evs.len(),
{
    if evs.len() == 0 {
        Seq::empty()
    } else {
        let st = link_step_spec(s, evs[0]);
        seq![st.1] + link_run_actions(st.0, evs.subrange(1, evs.len() as int))
    }
}

/// The state a link reaches over a whole event sequence.
pub open spec fn link_run_state(s: LinkState, evs: Seq<LinkEventSem>) -> LinkState
    decreases evs.len(),
{
    if evs.len() == 0 {
        s
    } else {
        link_run_state(link_step_spec(s, evs[0]).0, evs.subrange(1, evs.len() as int))
    }
}

/// The event of a well-behaved socket, echoed as its forwarding action:
/// a chunk is written unchanged to the far side, an end-of-stream
/// becomes the far side's half-close.
pub open spec fn echo_action(ev: LinkEventSem) -> LinkActionSem {
    match ev {
        LinkEventSem::Data { dir, bytes } => LinkActionSem::Forward { dir, bytes },
        LinkEventSem::Eof { dir } => LinkActionSem::HalfClose { dir },
        LinkEventSem::IoError { .. } => LinkActionSem::TearDown,
    }
}

/// A trace of a clean run: no I/O fault, and on each direction no
/// further traffic after its end-of-stream.
pub open spec fn clean_trace(evs: Seq<LinkEventSem>) -> bool {
    &&& forall|i: int|
        0 <= i < evs.len() ==> !((#[trigger] evs[i]) matches LinkEventSem::IoError { .. })
    &&& forall|i: int, j: int|
        0 <= i < j < evs.len() ==> match (#[trigger] evs[i], #[trigger] evs[j]) {
            (LinkEventSem::Eof { dir: d1 }, LinkEventSem::Data { dir: d2, .. }) => d1 != d2,
            (LinkEventSem::Eof { dir: d1 }, LinkEventSem::Eof { dir: d2 }) => d1 != d2,
            _ => true,
        }
}

/// Whether a state can only have drained a direction after its
/// end-of-stream: used to carry the induction through a run.
pub open spec fn consistent(s: LinkState, evs: Seq<LinkEventSem>) -> bool {
    &&& !s.failed
    &&& s.closed == (s.inbound == DirPhase::Drained && s.outbound == DirPhase::Drained)
    &&& forall|i: int|
        0 <= i < evs.len() ==> match #[trigger] evs[i] {
            LinkEventSem::Data { dir, .. } => phase_of(s, dir) == DirPhase::Streaming,
            LinkEventSem::Eof { dir } => phase_of(s, dir) == DirPhase::Streaming,
            _ => true,
        }
}

/// Law: on a clean trace, a link forwards exactly what each direction
/// carried, unchanged and in order, half-closes a direction exactly at
/// its end-of-stream — so the far side sees end-of-stream only after
/// the final byte — and is torn down only once both directions are
/// done.
pub proof fn lemma_relay_preserves_streams(evs: Seq<LinkEventSem>)
    requires
        clean_trace(evs),
    ensures
        link_run_actions(fresh_link(), evs) == evs.map_values(|ev: LinkEventSem| echo_action(ev)),
        link_wf(link_run_state(fresh_link(), evs)),
{
    lemma_relay_run(fresh_link(), evs);
}

/// The induction behind `lemma_relay_preserves_streams`.
proof fn lemma_relay_run(s: LinkState, evs: Seq<LinkEventSem>)
    requires
        clean_trace(evs),
        consistent(s, evs),
    ensures
        link_run_actions(s, evs) == evs.map_values(|ev: LinkEventSem| echo_action(ev)),
        link_wf(link_run_state(s, evs)),
    decreases evs.len(),
{
    let f = |ev: LinkEventSem| echo_action(ev);
    if evs.len() == 0 {
        assert(link_run_actions(s, evs) =~= evs.map_values(f));
    } else {
        let rest = evs.subrange(1, evs.len() as int);
        let st = link_step_spec(s, evs[0]);
        assert(clean_trace(rest));
        assert(consistent(st.0, rest)) by {
            assert(forall|j: int| 0 <= j < rest.len() ==> rest[j] == evs[j + 1]);
        }
        lemma_relay_run(st.0, rest);
        assert(st.1 == f(evs[0]));
        assert(link_run_actions(s, evs) =~= evs.map_values(f)) by {
            assert(evs.map_values(f)[0] == f(evs[0]));
            assert(forall|j: int| 0 <= j < rest.len() ==> rest.map_values(f)[j] == evs.map_values(
                f,
            )[j + 1]);
        }
    }
}

} // verus!
