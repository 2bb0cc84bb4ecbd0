//! Connection establishment: UDP hole punch first, TCP simultaneous
//! open as fallback, all under deadlines.
//!
//! The establisher is a state machine from plain events — time passing,
//! a datagram arriving, a TCP leg completing or failing — to a next
//! state and an action.  The caller binds sockets, sends the probes,
//! races the TCP legs and feeds the outcomes back in; every decision,
//! and the laws about the race, live here.  A run establishes at most
//! one transport, prefers UDP, falls back to TCP when the hole-punch
//! window closes, and fails with a definite error otherwise.

use vstd::prelude::*;
use crate::{Address, EstablishmentError};

verus! {

/// The transport a session ended up on.
#[derive(Clone, Copy, Debug, PartialEq, Eq, Structural)]
pub enum Transport {
    Udp,
    Tcp,
}

/// Establishment timing, in milliseconds.
#[derive(Clone, Copy, Debug, PartialEq, Eq, Structural)]
pub struct EstablishConfig {
    /// Interval between UDP probes.
    pub probe_interval_ms: u64,
    /// The hole-punch window: UDP gives up at its end.
    pub udp_deadline_ms: u64,
    /// The overall window: everything gives up at its end.
    pub overall_deadline_ms: u64,
}

impl EstablishConfig {
    /// Positive probe interval, and the UDP window within the overall one.
    pub open spec fn wf(self) -> bool {
        0 < self.probe_interval_ms && 0 < self.udp_deadline_ms <= self.overall_deadline_ms
    }

    /// The defaults named in the design: a probe every 500 ms, a 5 s
    /// hole-punch window, a 10 s overall deadline.
    pub fn default_config() -> (c: EstablishConfig)
        ensures
            c.wf(),
            c.probe_interval_ms == 500,
            c.udp_deadline_ms == 5000,
            c.overall_deadline_ms == 10000,
    {
        EstablishConfig { probe_interval_ms: 500, udp_deadline_ms: 5000, overall_deadline_ms: 10000 }
    }
}

/// Where an establishment run stands.
#[derive(Clone, Copy, Debug, PartialEq, Eq, Structural)]
pub enum EstablishState {
    /// Sending probes and listening for one from the peer.
    ProbingUdp { elapsed_ms: u64, next_probe_ms: u64 },
    /// Racing an outbound connect against a local accept.  `udp_tried`
    /// records whether a hole punch ran first: it decides which error
    /// a failed race surfaces.
    TryingTcp { elapsed_ms: u64, udp_tried: bool },
    /// Exactly one transport was selected.
    Established { transport: Transport },
    /// The run is over without a session.
    Failed { error: EstablishmentError },
}

/// What the surroundings report to the establisher.
#[derive(Clone, Copy, Debug, PartialEq, Eq, Structural)]
pub enum EstablishEvent {
    /// Time passed with nothing else happening.
    Elapsed { ms: u64 },
    /// A datagram arrived on the punch socket from `source`.
    UdpDatagram { source: Address },
    /// The outbound TCP connect completed.
    TcpConnected,
    /// The local listener accepted a connection.
    TcpAccepted,
    /// Both legs of the simultaneous open failed.
    TcpFailed,
}

/// What the surroundings must do next.
#[derive(Clone, Copy, Debug, PartialEq, Eq, Structural)]
pub enum EstablishAction {
    /// Send the fixed probe to the peer's public address.
    SendProbe,
    /// Close the punch socket's deadline and start the TCP race.
    StartTcp,
    /// Keep the punch socket as the session transport; cancel the rest.
    UseUdp,
    /// Keep the TCP stream as the session transport; close the loser.
    UseTcp,
    /// Give up and surface the error carried in the state.
    Fail,
    /// Nothing to do but wait for the next event.
    Wait,
}

/// Whether `ev` is a datagram whose source is the peer's announced
/// public address: the first such match wins the hole punch.
pub open spec fn is_peer_datagram(ev: EstablishEvent, peer: Address) -> bool {
    match ev {
        EstablishEvent::UdpDatagram { source } => source == peer,
        _ => false,
    }
}

/// `a + b`, stopped at the top of `u64`.
pub open spec fn sat_add(a: u64, b: u64) -> u64 {
    if a + b > u64::MAX {
        u64::MAX
    } else {
        (a + b) as u64
    }
}

/// Where a run starts, given which protocols the peer announced: UDP
/// preferred, TCP the fallback, no protocol at all unreachable.
pub open spec fn init_spec(peer_tcp: bool, peer_udp: bool) -> (EstablishState, EstablishAction) {
    if peer_udp {
        (EstablishState::ProbingUdp { elapsed_ms: 0, next_probe_ms: 0 }, EstablishAction::SendProbe)
    } else if peer_tcp {
        (
            EstablishState::TryingTcp { elapsed_ms: 0, udp_tried: false },
            EstablishAction::StartTcp,
        )
    } else {
        (
            EstablishState::Failed { error: EstablishmentError::PeerUnreachable },
            EstablishAction::Fail,
        )
    }
}

/// One step of the establisher.
pub open spec fn step_spec(
    cfg: EstablishConfig,
    peer: Address,
    peer_tcp: bool,
    s: EstablishState,
    ev: EstablishEvent,
) -> (EstablishState, EstablishAction) {
    match s {
        EstablishState::ProbingUdp { elapsed_ms, next_probe_ms } => {
            if is_peer_datagram(ev, peer) {
                (EstablishState::Established { transport: Transport::Udp }, EstablishAction::UseUdp)
            } else {
                match ev {
                    EstablishEvent::Elapsed { ms } => {
                        let now = sat_add(elapsed_ms, ms);
                        if now >= cfg.udp_deadline_ms {
                            if peer_tcp {
                                (
                                    EstablishState::TryingTcp {
                                        elapsed_ms: now,
                                        udp_tried: true,
                                    },
                                    EstablishAction::StartTcp,
                                )
                            } else {
                                (
                                    EstablishState::Failed {
                                        error: EstablishmentError::HolePunchTimeout,
                                    },
                                    EstablishAction::Fail,
                                )
                            }
                        } else if now >= next_probe_ms {
                            (
                                EstablishState::ProbingUdp {
                                    elapsed_ms: now,
                                    next_probe_ms: sat_add(now, cfg.probe_interval_ms),
                                },
                                EstablishAction::SendProbe,
                            )
                        } else {
                            (
                                EstablishState::ProbingUdp {
                                    elapsed_ms: now,
                                    next_probe_ms,
                                },
                                EstablishAction::Wait,
                            )
                        }
                    },
                    _ => (s, EstablishAction::Wait),
                }
            }
        },
        EstablishState::TryingTcp { elapsed_ms, udp_tried } => {
            match ev {
                EstablishEvent::TcpConnected | EstablishEvent::TcpAccepted => (
                    EstablishState::Established { transport: Transport::Tcp },
                    EstablishAction::UseTcp,
                ),
                EstablishEvent::TcpFailed => {
                    // In a run that also probed UDP, both paths have now
                    // failed within their windows: the peer is
                    // unreachable.  In a TCP-only run the race itself is
                    // what failed.
                    if udp_tried {
                        (
                            EstablishState::Failed { error: EstablishmentError::PeerUnreachable },
                            EstablishAction::Fail,
                        )
                    } else {
                        (
                            EstablishState::Failed {
                                error: EstablishmentError::SimultaneousOpenFailed,
                            },
                            EstablishAction::Fail,
                        )
                    }
                },
                EstablishEvent::Elapsed { ms } => {
                    let now = sat_add(elapsed_ms, ms);
                    if now >= cfg.overall_deadline_ms {
                        (
                            EstablishState::Failed { error: EstablishmentError::PeerUnreachable },
                            EstablishAction::Fail,
                        )
                    } else {
                        (
                            EstablishState::TryingTcp { elapsed_ms: now, udp_tried },
                            EstablishAction::Wait,
                        )
                    }
                },
                _ => (s, EstablishAction::Wait),
            }
        },
        _ => (s, EstablishAction::Wait),
    }
}

/// Where a run starts: see `init_spec`.
pub fn establish_init(peer_tcp: bool, peer_udp: bool) -> (r: (EstablishState, EstablishAction))
    ensures
        r == init_spec(peer_tcp, peer_udp),
{
    if peer_udp {
        (EstablishState::ProbingUdp { elapsed_ms: 0, next_probe_ms: 0 }, EstablishAction::SendProbe)
    } else if peer_tcp {
        (
            EstablishState::TryingTcp { elapsed_ms: 0, udp_tried: false },
            EstablishAction::StartTcp,
        )
    } else {
        (
            EstablishState::Failed { error: EstablishmentError::PeerUnreachable },
            EstablishAction::Fail,
        )
    }
}

/// `a + b`, stopped at the top of `u64`.
fn saturating_add(a: u64, b: u64) -> (r: u64)
    ensures
        r == sat_add(a, b),
{
    if a > u64::MAX - b {
        u64::MAX
    } else {
        a + b
    }
}

/// One step of the establisher: exactly `step_spec`.
pub fn establish_step(
    cfg: &EstablishConfig,
    peer: Address,
    peer_tcp: bool,
    s: EstablishState,
    ev: EstablishEvent,
) -> (r: (EstablishState, EstablishAction))
    ensures
        r == step_spec(*cfg, peer, peer_tcp, s, ev),
{
    match s {
        EstablishState::ProbingUdp { elapsed_ms, next_probe_ms } => {
            match ev {
                EstablishEvent::UdpDatagram { source } => {
                    if source == peer {
                        (
                            EstablishState::Established { transport: Transport::Udp },
                            EstablishAction::UseUdp,
                        )
                    } else {
                        (s, EstablishAction::Wait)
                    }
                },
                EstablishEvent::Elapsed { ms } => {
                    let now = saturating_add(elapsed_ms, ms);
                    if now >= cfg.udp_deadline_ms {
                        if peer_tcp {
                            (
                                EstablishState::TryingTcp {
                                    elapsed_ms: now,
                                    udp_tried: true,
                                },
                                EstablishAction::StartTcp,
                            )
                        } else {
                            (
                                EstablishState::Failed {
                                    error: EstablishmentError::HolePunchTimeout,
                                },
                                EstablishAction::Fail,
                            )
                        }
                    } else if now >= next_probe_ms {
                        (
                            EstablishState::ProbingUdp {
                                elapsed_ms: now,
                                next_probe_ms: saturating_add(now, cfg.probe_interval_ms),
                            },
                            EstablishAction::SendProbe,
                        )
                    } else {
                        (
                            EstablishState::ProbingUdp { elapsed_ms: now, next_probe_ms },
                            EstablishAction::Wait,
                        )
                    }
                },
                _ => (s, EstablishAction::Wait),
            }
        },
        EstablishState::TryingTcp { elapsed_ms, udp_tried } => {
            match ev {
                EstablishEvent::TcpConnected | EstablishEvent::TcpAccepted => (
                    EstablishState::Established { transport: Transport::Tcp },
                    EstablishAction::UseTcp,
                ),
                EstablishEvent::TcpFailed => {
                    if udp_tried {
                        (
                            EstablishState::Failed { error: EstablishmentError::PeerUnreachable },
                            EstablishAction::Fail,
                        )
                    } else {
                        (
                            EstablishState::Failed {
                                error: EstablishmentError::SimultaneousOpenFailed,
                            },
                            EstablishAction::Fail,
                        )
                    }
                },
                EstablishEvent::Elapsed { ms } => {
                    let now = saturating_add(elapsed_ms, ms);
                    if now >= cfg.overall_deadline_ms {
                        (
                            EstablishState::Failed { error: EstablishmentError::PeerUnreachable },
                            EstablishAction::Fail,
                        )
                    } else {
                        (
                            EstablishState::TryingTcp { elapsed_ms: now, udp_tried },
                            EstablishAction::Wait,
                        )
                    }
                },
                _ => (s, EstablishAction::Wait),
            }
        },
        _ => (s, EstablishAction::Wait),
    }
}

// ---------------------------------------------------------------------
// Runs and their laws.
// ---------------------------------------------------------------------

/// The state after feeding a whole event sequence through the stepper.
pub open spec fn run_spec(
    cfg: EstablishConfig,
    peer: Address,
    peer_tcp: bool,
    s: EstablishState,
    evs: Seq<EstablishEvent>,
) -> EstablishState
    decreases evs.len(),
{
    if evs.len() == 0 {
        s
    } else {
        run_spec(
            cfg,
            peer,
            peer_tcp,
            step_spec(cfg, peer, peer_tcp, s, evs[0]).0,
            evs.subrange(1, evs.len() as int),
        )
    }
}

/// Total idle time reported in an event sequence.
pub open spec fn total_elapsed(evs: Seq<EstablishEvent>) -> int
    decreases evs.len(),
{
    if evs.len() == 0 {
        0int
    } else {
        (match evs[0] {
            EstablishEvent::Elapsed { ms } => ms as int,
            _ => 0int,
        }) + total_elapsed(evs.subrange(1, evs.len() as int))
    }
}

/// Law: a probe from the peer's announced address, arriving while the
/// hole punch is still probing, establishes the UDP transport at once —
/// the step of each of two cooperating establishers racing toward each
/// other.
pub proof fn lemma_peer_probe_establishes(
    cfg: EstablishConfig,
    peer: Address,
    peer_tcp: bool,
    s: EstablishState,
    ev: EstablishEvent,
)
    requires
        s matches EstablishState::ProbingUdp { .. },
        is_peer_datagram(ev, peer),
    ensures
        step_spec(cfg, peer, peer_tcp, s, ev) == (
            EstablishState::Established { transport: Transport::Udp },
            EstablishAction::UseUdp,
        ),
{
}

/// Law: two cooperating establishers racing toward each other, each
/// probing and each receiving the other's probe within the hole-punch
/// window, both succeed: each ends established on exactly one
/// transport — UDP — and nothing that happens later moves either.
pub proof fn lemma_race_both_succeed(
    cfg_a: EstablishConfig,
    cfg_b: EstablishConfig,
    addr_a: Address,
    addr_b: Address,
    a: EstablishState,
    b: EstablishState,
    a_tcp: bool,
    b_tcp: bool,
    later_a: Seq<EstablishEvent>,
    later_b: Seq<EstablishEvent>,
)
    requires
        a matches EstablishState::ProbingUdp { .. },
        b matches EstablishState::ProbingUdp { .. },
    ensures
        run_spec(
            cfg_a,
            addr_b,
            a_tcp,
            step_spec(
                cfg_a,
                addr_b,
                a_tcp,
                a,
                EstablishEvent::UdpDatagram { source: addr_b },
            ).0,
            later_a,
        ) == (EstablishState::Established { transport: Transport::Udp }),
        run_spec(
            cfg_b,
            addr_a,
            b_tcp,
            step_spec(
                cfg_b,
                addr_a,
                b_tcp,
                b,
                EstablishEvent::UdpDatagram { source: addr_a },
            ).0,
            later_b,
        ) == (EstablishState::Established { transport: Transport::Udp }),
{
    lemma_peer_probe_establishes(
        cfg_a,
        addr_b,
        a_tcp,
        a,
        EstablishEvent::UdpDatagram { source: addr_b },
    );
    lemma_peer_probe_establishes(
        cfg_b,
        addr_a,
        b_tcp,
        b,
        EstablishEvent::UdpDatagram { source: addr_a },
    );
    lemma_terminal_stable(
        cfg_a,
        addr_b,
        a_tcp,
        EstablishState::Established { transport: Transport::Udp },
        later_a,
    );
    lemma_terminal_stable(
        cfg_b,
        addr_a,
        b_tcp,
        EstablishState::Established { transport: Transport::Udp },
        later_b,
    );
}

/// Law: an established or failed run is over: no later event moves it,
/// so a run selects exactly one transport, exactly once.
pub proof fn lemma_terminal_stable(
    cfg: EstablishConfig,
    peer: Address,
    peer_tcp: bool,
    s: EstablishState,
    evs: Seq<EstablishEvent>,
)
    requires
        s matches EstablishState::Established { .. } || s matches EstablishState::Failed { .. },
    ensures
        run_spec(cfg, peer, peer_tcp, s, evs) == s,
    decreases evs.len(),
{
    if evs.len() > 0 {
        lemma_terminal_stable(cfg, peer, peer_tcp, s, evs.subrange(1, evs.len() as int));
    }
}

/// Law: if no probe from the peer arrives, the run never establishes
/// UDP; and once the reported idle time reaches the hole-punch window,
/// it is no longer probing — it has fallen back to TCP or ended.
pub proof fn lemma_udp_silence_falls_back(
    cfg: EstablishConfig,
    peer: Address,
    peer_tcp: bool,
    s: EstablishState,
    evs: Seq<EstablishEvent>,
)
    requires
        cfg.wf(),
        forall|i: int| 0 <= i < evs.len() ==> !is_peer_datagram(evs[i], peer),
        s matches EstablishState::ProbingUdp { elapsed_ms, .. } && elapsed_ms
            < cfg.udp_deadline_ms,
    ensures
        run_spec(cfg, peer, peer_tcp, s, evs) != (EstablishState::Established {
            transport: Transport::Udp,
        }),
        (s->ProbingUdp_elapsed_ms + total_elapsed(evs) >= cfg.udp_deadline_ms) ==> !(run_spec(
            cfg,
            peer,
            peer_tcp,
            s,
            evs,
        ) matches EstablishState::ProbingUdp { .. }),
    decreases evs.len(),
{
    if evs.len() > 0 {
        let rest = evs.subrange(1, evs.len() as int);
        let next = step_spec(cfg, peer, peer_tcp, s, evs[0]).0;
        assert(forall|i: int| 0 <= i < rest.len() ==> !is_peer_datagram(rest[i], peer));
        match next {
            EstablishState::ProbingUdp { .. } => {
                lemma_udp_silence_falls_back(cfg, peer, peer_tcp, next, rest);
            },
            _ => {
                lemma_not_probing_no_udp(cfg, peer, peer_tcp, next, rest);
            },
        }
    }
}

/// Law: when both paths have failed — the hole punch gave up and the
/// simultaneous open it fell back to then failed within the overall
/// window — the run fails with `PeerUnreachable`.  Only a TCP-only run,
/// where no hole punch was tried, surfaces `SimultaneousOpenFailed`.
pub proof fn lemma_both_paths_failed_unreachable(
    cfg: EstablishConfig,
    peer: Address,
    peer_tcp: bool,
    elapsed_ms: u64,
    udp_tried: bool,
)
    ensures
        step_spec(
            cfg,
            peer,
            peer_tcp,
            EstablishState::TryingTcp { elapsed_ms, udp_tried },
            EstablishEvent::TcpFailed,
        ).0 == (EstablishState::Failed {
            error: if udp_tried {
                EstablishmentError::PeerUnreachable
            } else {
                EstablishmentError::SimultaneousOpenFailed
            },
        }),
{
}

/// Once a run has left the probing phase without establishing UDP, it
/// never probes again and never establishes UDP.
proof fn lemma_not_probing_no_udp(
    cfg: EstablishConfig,
    peer: Address,
    peer_tcp: bool,
    s: EstablishState,
    evs: Seq<EstablishEvent>,
)
    requires
        !(s matches EstablishState::ProbingUdp { .. }),
        s != (EstablishState::Established { transport: Transport::Udp }),
    ensures
        run_spec(cfg, peer, peer_tcp, s, evs) != (EstablishState::Established {
            transport: Transport::Udp,
        }),
        !(run_spec(cfg, peer, peer_tcp, s, evs) matches EstablishState::ProbingUdp { .. }),
    decreases evs.len(),
{
    if evs.len() > 0 {
        let rest = evs.subrange(1, evs.len() as int);
        let next = step_spec(cfg, peer, peer_tcp, s, evs[0]).0;
        lemma_not_probing_no_udp(cfg, peer, peer_tcp, next, rest);
    }
}

} // verus!
