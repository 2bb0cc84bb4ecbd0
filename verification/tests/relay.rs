use rendezvous_relay::relay::{link_new, link_step, Direction, LinkAction, LinkEvent, LinkState};

#[test]
fn ten_megabytes_arrive_in_order_then_eof() {
    // One direction carries 10 MB in chunks; the far side must receive
    // exactly those bytes in order, and the half-close (its
    // end-of-stream) only after the final byte.
    let chunk_size = 100_000usize;
    let chunks = 100usize;
    let mut sent: Vec<u8> = Vec::new();
    let mut forwarded: Vec<u8> = Vec::new();
    let mut state: LinkState = link_new();
    let mut half_closed = false;

    for c in 0..chunks {
        let chunk: Vec<u8> = (0..chunk_size).map(|i| ((i + c) % 256) as u8).collect();
        sent.extend(&chunk);
        let (next, action) = link_step(
            state,
            LinkEvent::Data { dir: Direction::Inbound, bytes: chunk },
        );
        state = next;
        match action {
            LinkAction::Forward { dir, bytes } => {
                assert_eq!(dir, Direction::Inbound);
                assert!(!half_closed);
                forwarded.extend(&bytes);
            },
            _ => panic!("a streaming chunk must be forwarded"),
        }
    }

    let (next, action) = link_step(state, LinkEvent::Eof { dir: Direction::Inbound });
    state = next;
    match action {
        LinkAction::HalfClose { dir } => {
            assert_eq!(dir, Direction::Inbound);
            half_closed = true;
        },
        _ => panic!("end-of-stream must half-close the far side"),
    }
    assert!(half_closed);
    assert_eq!(forwarded.len(), chunk_size * chunks);
    assert_eq!(forwarded, sent);

    // The other direction is still draining: the link is not torn down.
    assert!(!state.closed);
    let (next, action) = link_step(
        state,
        LinkEvent::Data { dir: Direction::Outbound, bytes: vec![1, 2, 3] },
    );
    state = next;
    assert!(matches!(
        action,
        LinkAction::Forward { dir: Direction::Outbound, .. }
    ));

    // Only once both directions are done is the link torn down.
    let (next, action) = link_step(state, LinkEvent::Eof { dir: Direction::Outbound });
    state = next;
    assert!(matches!(action, LinkAction::HalfClose { dir: Direction::Outbound }));
    assert!(state.closed);
    assert!(!state.failed);
}

#[test]
fn error_tears_the_link_down_at_once() {
    let state = link_new();
    let (next, action) = link_step(state, LinkEvent::IoError { dir: Direction::Outbound });
    assert!(matches!(action, LinkAction::TearDown));
    assert!(next.closed);
    assert!(next.failed);

    // A closed link ignores everything after.
    let (last, action) = link_step(
        next,
        LinkEvent::Data { dir: Direction::Inbound, bytes: vec![9] },
    );
    assert!(matches!(action, LinkAction::Ignore));
    assert_eq!(last, next);
}

#[test]
fn data_after_eof_is_ignored() {
    let state = link_new();
    let (state, _) = link_step(state, LinkEvent::Eof { dir: Direction::Inbound });
    let (state, action) = link_step(
        state,
        LinkEvent::Data { dir: Direction::Inbound, bytes: vec![4, 5] },
    );
    assert!(matches!(action, LinkAction::Ignore));
    let (_, action) = link_step(state, LinkEvent::Eof { dir: Direction::Inbound });
    assert!(matches!(action, LinkAction::Ignore));
}
