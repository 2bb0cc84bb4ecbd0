use rendezvous_relay::codec::{decode_peer_info, encode_registration};
use rendezvous_relay::table::{handle_registration, RendezvousTable};
use rendezvous_relay::{Address, DecodeError, Protocol, Registration};

fn registration(id: &str, local: Address, protocols: Vec<Protocol>) -> Registration {
    Registration {
        client_id: String::from(id),
        local_addr: local,
        public_addr: None,
        protocols,
    }
}

fn register_ok(
    table: &mut RendezvousTable,
    id: &str,
    local: Address,
    observed: Address,
    protocols: Vec<Protocol>,
) -> Vec<Vec<u8>> {
    let bytes = encode_registration(&registration(id, local, protocols));
    handle_registration(table, &bytes, observed).unwrap()
}

#[test]
fn example_alice_then_bob() {
    // "alice" registers from observed 203.0.113.5:40000 with {TCP,UDP};
    // "bob" registers next from 203.0.113.9:41000; bob's response holds
    // exactly one entry, alice's announced endpoint.
    let mut table = RendezvousTable::new();
    let alice_frames = register_ok(
        &mut table,
        "alice",
        Address::new(10, 0, 0, 5, 4000),
        Address::new(203, 0, 113, 5, 40000),
        vec![Protocol::TCP, Protocol::UDP],
    );
    assert!(alice_frames.is_empty());

    let bob_frames = register_ok(
        &mut table,
        "bob",
        Address::new(10, 0, 0, 9, 4100),
        Address::new(203, 0, 113, 9, 41000),
        vec![Protocol::TCP],
    );
    assert_eq!(bob_frames.len(), 1);
    let (peer, _) = decode_peer_info(&bob_frames[0]).unwrap();
    assert_eq!(peer.id, "alice");
    assert_eq!(peer.public_addr, Address::new(203, 0, 113, 5, 40000));
    assert_eq!(peer.protocols, vec![Protocol::TCP, Protocol::UDP]);
}

#[test]
fn observed_address_overrides_claimed() {
    let mut table = RendezvousTable::new();
    let claimed = Registration {
        client_id: String::from("mallory"),
        local_addr: Address::new(10, 9, 9, 9, 1),
        public_addr: Some(Address::new(8, 8, 8, 8, 53)),
        protocols: vec![Protocol::TCP],
    };
    let bytes = encode_registration(&claimed);
    handle_registration(&mut table, &bytes, Address::new(203, 0, 113, 77, 2000)).unwrap();

    let frames = register_ok(
        &mut table,
        "observer",
        Address::new(10, 1, 1, 1, 2),
        Address::new(203, 0, 113, 78, 2001),
        vec![Protocol::TCP],
    );
    assert_eq!(frames.len(), 1);
    let (peer, _) = decode_peer_info(&frames[0]).unwrap();
    assert_eq!(peer.id, "mallory");
    // The server announced what it observed, not what was claimed.
    assert_eq!(peer.public_addr, Address::new(203, 0, 113, 77, 2000));
}

#[test]
fn same_identity_twice_last_write_wins() {
    let mut table = RendezvousTable::new();
    register_ok(
        &mut table,
        "alice",
        Address::new(10, 0, 0, 5, 4000),
        Address::new(203, 0, 113, 5, 40000),
        vec![Protocol::TCP, Protocol::UDP],
    );
    register_ok(
        &mut table,
        "alice",
        Address::new(10, 0, 0, 6, 4001),
        Address::new(203, 0, 113, 6, 40001),
        vec![Protocol::UDP],
    );
    let frames = register_ok(
        &mut table,
        "bob",
        Address::new(10, 0, 0, 9, 4100),
        Address::new(203, 0, 113, 9, 41000),
        vec![Protocol::TCP],
    );
    // Exactly one entry for alice, reflecting the second registration.
    assert_eq!(frames.len(), 1);
    let (peer, _) = decode_peer_info(&frames[0]).unwrap();
    assert_eq!(peer.id, "alice");
    assert_eq!(peer.public_addr, Address::new(203, 0, 113, 6, 40001));
    assert_eq!(peer.local_addr, Address::new(10, 0, 0, 6, 4001));
    assert_eq!(peer.protocols, vec![Protocol::UDP]);
}

#[test]
fn response_never_contains_self() {
    let mut table = RendezvousTable::new();
    register_ok(
        &mut table,
        "alice",
        Address::new(10, 0, 0, 5, 4000),
        Address::new(203, 0, 113, 5, 40000),
        vec![Protocol::TCP],
    );
    let frames = register_ok(
        &mut table,
        "alice",
        Address::new(10, 0, 0, 5, 4000),
        Address::new(203, 0, 113, 5, 40000),
        vec![Protocol::TCP],
    );
    for frame in &frames {
        let (peer, _) = decode_peer_info(frame).unwrap();
        assert_ne!(peer.id, "alice");
    }
    assert!(frames.is_empty());
}

#[test]
fn distinct_registrations_lose_nothing() {
    // Each registrant's response reflects exactly the peers registered
    // strictly before it.
    let mut table = RendezvousTable::new();
    let names = ["p0", "p1", "p2", "p3", "p4"];
    for (k, name) in names.iter().enumerate() {
        let frames = register_ok(
            &mut table,
            name,
            Address::new(10, 0, 0, k as u8, 4000),
            Address::new(203, 0, 113, k as u8, 40000 + k as u16),
            vec![Protocol::TCP, Protocol::UDP],
        );
        assert_eq!(frames.len(), k);
        for (j, frame) in frames.iter().enumerate() {
            let (peer, _) = decode_peer_info(frame).unwrap();
            assert_eq!(peer.id, names[j]);
            assert_eq!(
                peer.public_addr,
                Address::new(203, 0, 113, j as u8, 40000 + j as u16)
            );
        }
    }
}

#[test]
fn malformed_registration_leaves_table_alone() {
    let mut table = RendezvousTable::new();
    register_ok(
        &mut table,
        "alice",
        Address::new(10, 0, 0, 5, 4000),
        Address::new(203, 0, 113, 5, 40000),
        vec![Protocol::TCP],
    );
    let err = handle_registration(
        &mut table,
        &[0, 0, 0, 1, 3],
        Address::new(203, 0, 113, 9, 41000),
    );
    assert_eq!(err, Err(DecodeError::Malformed));

    // The table still holds exactly alice.
    let frames = register_ok(
        &mut table,
        "bob",
        Address::new(10, 0, 0, 9, 4100),
        Address::new(203, 0, 113, 9, 41000),
        vec![Protocol::TCP],
    );
    assert_eq!(frames.len(), 1);
    let (peer, _) = decode_peer_info(&frames[0]).unwrap();
    assert_eq!(peer.id, "alice");
}

#[test]
fn snapshot_excludes_only_requester() {
    let mut table = RendezvousTable::new();
    let reg_a = registration("a", Address::new(10, 0, 0, 1, 1), vec![Protocol::TCP]);
    let reg_b = registration("b", Address::new(10, 0, 0, 2, 2), vec![Protocol::UDP]);
    table.register(&reg_a, Address::new(203, 0, 113, 1, 100));
    table.register(&reg_b, Address::new(203, 0, 113, 2, 200));
    let seen = table.snapshot_for(&String::from("a"));
    assert_eq!(seen.len(), 1);
    assert_eq!(seen[0].id, "b");
    let seen_none = table.snapshot_for(&String::from("c"));
    assert_eq!(seen_none.len(), 2);
}
