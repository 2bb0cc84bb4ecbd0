use rendezvous_relay::establish::{
    establish_init, establish_step, EstablishAction, EstablishConfig, EstablishEvent,
    EstablishState, Transport,
};
use rendezvous_relay::{Address, EstablishmentError};

fn cfg() -> EstablishConfig {
    EstablishConfig::default_config()
}

#[test]
fn prefers_udp_when_peer_offers_it() {
    let (state, action) = establish_init(true, true);
    assert!(matches!(state, EstablishState::ProbingUdp { .. }));
    assert!(matches!(action, EstablishAction::SendProbe));
}

#[test]
fn tcp_only_peer_goes_straight_to_tcp() {
    let (state, action) = establish_init(true, false);
    assert_eq!(
        state,
        EstablishState::TryingTcp { elapsed_ms: 0, udp_tried: false }
    );
    assert!(matches!(action, EstablishAction::StartTcp));
}

#[test]
fn peer_with_no_protocols_is_unreachable() {
    let (state, action) = establish_init(false, false);
    assert_eq!(
        state,
        EstablishState::Failed { error: EstablishmentError::PeerUnreachable }
    );
    assert!(matches!(action, EstablishAction::Fail));
}

#[test]
fn cooperating_establishers_both_succeed_on_udp() {
    // Two establishers race toward each other within the window: each
    // receives the other's probe and selects exactly one transport.
    let a_addr = Address::new(203, 0, 113, 5, 40000);
    let b_addr = Address::new(203, 0, 113, 9, 41000);
    let (a0, _) = establish_init(true, true);
    let (b0, _) = establish_init(true, true);

    // Some time passes, then each side's probe reaches the other.
    let (a1, _) = establish_step(&cfg(), b_addr, true, a0, EstablishEvent::Elapsed { ms: 120 });
    let (b1, _) = establish_step(&cfg(), a_addr, true, b0, EstablishEvent::Elapsed { ms: 120 });
    let (a2, a_act) = establish_step(
        &cfg(),
        b_addr,
        true,
        a1,
        EstablishEvent::UdpDatagram { source: b_addr },
    );
    let (b2, b_act) = establish_step(
        &cfg(),
        a_addr,
        true,
        b1,
        EstablishEvent::UdpDatagram { source: a_addr },
    );
    assert_eq!(a2, EstablishState::Established { transport: Transport::Udp });
    assert_eq!(b2, EstablishState::Established { transport: Transport::Udp });
    assert!(matches!(a_act, EstablishAction::UseUdp));
    assert!(matches!(b_act, EstablishAction::UseUdp));

    // Established is terminal: a late TCP completion changes nothing.
    let (a3, a_act3) = establish_step(&cfg(), b_addr, true, a2, EstablishEvent::TcpConnected);
    assert_eq!(a3, a2);
    assert!(matches!(a_act3, EstablishAction::Wait));
}

#[test]
fn stray_datagram_does_not_establish() {
    let peer = Address::new(203, 0, 113, 5, 40000);
    let stranger = Address::new(198, 51, 100, 1, 9999);
    let (s0, _) = establish_init(true, true);
    let (s1, act) = establish_step(
        &cfg(),
        peer,
        true,
        s0,
        EstablishEvent::UdpDatagram { source: stranger },
    );
    assert!(matches!(s1, EstablishState::ProbingUdp { .. }));
    assert!(matches!(act, EstablishAction::Wait));
}

#[test]
fn probe_schedule_follows_interval() {
    let peer = Address::new(203, 0, 113, 5, 40000);
    let (s0, _) = establish_init(true, true);
    // First wait reaches the first scheduled probe at once.
    let (s1, act1) = establish_step(&cfg(), peer, true, s0, EstablishEvent::Elapsed { ms: 0 });
    assert!(matches!(act1, EstablishAction::SendProbe));
    // 100 ms later the next probe is not due yet.
    let (s2, act2) = establish_step(&cfg(), peer, true, s1, EstablishEvent::Elapsed { ms: 100 });
    assert!(matches!(act2, EstablishAction::Wait));
    // At 500 ms it is.
    let (_s3, act3) = establish_step(&cfg(), peer, true, s2, EstablishEvent::Elapsed { ms: 400 });
    assert!(matches!(act3, EstablishAction::SendProbe));
}

#[test]
fn dropped_probes_fall_back_to_tcp_within_window() {
    // No datagram ever arrives: at the 5 s hole-punch deadline the
    // establisher starts the TCP simultaneous open, and a completed
    // connect establishes TCP.
    let peer = Address::new(203, 0, 113, 5, 40000);
    let (mut state, _) = establish_init(true, true);
    let mut started_tcp = false;
    for _ in 0..10 {
        let (next, action) =
            establish_step(&cfg(), peer, true, state, EstablishEvent::Elapsed { ms: 500 });
        state = next;
        if matches!(action, EstablishAction::StartTcp) {
            started_tcp = true;
        }
    }
    assert!(started_tcp);
    assert_eq!(
        state,
        EstablishState::TryingTcp { elapsed_ms: 5000, udp_tried: true }
    );

    let (done, action) = establish_step(&cfg(), peer, true, state, EstablishEvent::TcpConnected);
    assert_eq!(done, EstablishState::Established { transport: Transport::Tcp });
    assert!(matches!(action, EstablishAction::UseTcp));
}

#[test]
fn accepted_leg_also_wins_the_race() {
    let peer = Address::new(203, 0, 113, 5, 40000);
    let (s0, _) = establish_init(true, false);
    let (s1, act) = establish_step(&cfg(), peer, true, s0, EstablishEvent::TcpAccepted);
    assert_eq!(s1, EstablishState::Established { transport: Transport::Tcp });
    assert!(matches!(act, EstablishAction::UseTcp));
}

#[test]
fn udp_only_peer_times_out_with_hole_punch_error() {
    let peer = Address::new(203, 0, 113, 5, 40000);
    let (s0, _) = establish_init(false, true);
    let (s1, act) = establish_step(&cfg(), peer, false, s0, EstablishEvent::Elapsed { ms: 5000 });
    assert_eq!(
        s1,
        EstablishState::Failed { error: EstablishmentError::HolePunchTimeout }
    );
    assert!(matches!(act, EstablishAction::Fail));
}

#[test]
fn failed_simultaneous_open_reports_it() {
    // A TCP-only run, with no hole punch tried first: the race's own
    // failure is the surfaced error.
    let peer = Address::new(203, 0, 113, 5, 40000);
    let (s0, _) = establish_init(true, false);
    let (s1, act) = establish_step(&cfg(), peer, true, s0, EstablishEvent::TcpFailed);
    assert_eq!(
        s1,
        EstablishState::Failed { error: EstablishmentError::SimultaneousOpenFailed }
    );
    assert!(matches!(act, EstablishAction::Fail));
}

#[test]
fn both_paths_failing_is_peer_unreachable() {
    // The hole punch times out, the run falls back to TCP, and the
    // simultaneous open then fails too: both paths failed within their
    // windows, so the surfaced error is PeerUnreachable.
    let peer = Address::new(203, 0, 113, 5, 40000);
    let (s0, _) = establish_init(true, true);
    let (s1, act1) = establish_step(&cfg(), peer, true, s0, EstablishEvent::Elapsed { ms: 5000 });
    assert_eq!(
        s1,
        EstablishState::TryingTcp { elapsed_ms: 5000, udp_tried: true }
    );
    assert!(matches!(act1, EstablishAction::StartTcp));
    let (s2, act2) = establish_step(&cfg(), peer, true, s1, EstablishEvent::TcpFailed);
    assert_eq!(
        s2,
        EstablishState::Failed { error: EstablishmentError::PeerUnreachable }
    );
    assert!(matches!(act2, EstablishAction::Fail));
}

#[test]
fn overall_deadline_makes_peer_unreachable() {
    let peer = Address::new(203, 0, 113, 5, 40000);
    let (s0, _) = establish_init(true, false);
    let (s1, _) = establish_step(&cfg(), peer, true, s0, EstablishEvent::Elapsed { ms: 9000 });
    assert_eq!(
        s1,
        EstablishState::TryingTcp { elapsed_ms: 9000, udp_tried: false }
    );
    let (s2, act) = establish_step(&cfg(), peer, true, s1, EstablishEvent::Elapsed { ms: 1000 });
    assert_eq!(
        s2,
        EstablishState::Failed { error: EstablishmentError::PeerUnreachable }
    );
    assert!(matches!(act, EstablishAction::Fail));
}
