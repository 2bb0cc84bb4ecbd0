use rendezvous_relay::codec::{
    decode_peer_info, decode_peer_list, decode_registration, encode_peer_info,
    encode_registration, frame_fits,
};
use rendezvous_relay::{Address, DecodeError, PeerInfo, Protocol, Registration};

fn sample_registration() -> Registration {
    Registration {
        client_id: String::from("alice"),
        local_addr: Address::new(192, 168, 1, 10, 4000),
        public_addr: Some(Address::new(203, 0, 113, 5, 40000)),
        protocols: vec![Protocol::TCP, Protocol::UDP],
    }
}

#[test]
fn registration_round_trip() {
    let reg = sample_registration();
    assert!(frame_fits(&reg.client_id));
    let bytes = encode_registration(&reg);
    let (back, used) = decode_registration(&bytes).unwrap();
    assert_eq!(used, bytes.len());
    assert_eq!(back.client_id, "alice");
    assert_eq!(back.local_addr, Address::new(192, 168, 1, 10, 4000));
    assert_eq!(back.public_addr, Some(Address::new(203, 0, 113, 5, 40000)));
    assert_eq!(back.protocols, vec![Protocol::TCP, Protocol::UDP]);
}

#[test]
fn registration_round_trip_no_public_addr() {
    let reg = Registration {
        client_id: String::from("bob"),
        local_addr: Address::new(10, 0, 0, 1, 9000),
        public_addr: None,
        protocols: vec![Protocol::UDP],
    };
    let bytes = encode_registration(&reg);
    let (back, used) = decode_registration(&bytes).unwrap();
    assert_eq!(used, bytes.len());
    assert_eq!(back.client_id, "bob");
    assert_eq!(back.public_addr, None);
    assert_eq!(back.protocols, vec![Protocol::UDP]);
}

#[test]
fn peer_info_round_trip() {
    let info = PeerInfo {
        id: String::from("carol"),
        public_addr: Address::new(198, 51, 100, 7, 50000),
        local_addr: Address::new(172, 16, 0, 2, 6000),
        protocols: vec![Protocol::TCP],
    };
    let bytes = encode_peer_info(&info);
    let (back, used) = decode_peer_info(&bytes).unwrap();
    assert_eq!(used, bytes.len());
    assert_eq!(back.id, "carol");
    assert_eq!(back.public_addr, Address::new(198, 51, 100, 7, 50000));
    assert_eq!(back.local_addr, Address::new(172, 16, 0, 2, 6000));
    assert_eq!(back.protocols, vec![Protocol::TCP]);
}

#[test]
fn peer_info_exact_bytes() {
    let info = PeerInfo {
        id: String::from("a"),
        public_addr: Address::new(1, 2, 3, 4, 5),
        local_addr: Address::new(6, 7, 8, 9, 10),
        protocols: vec![Protocol::TCP],
    };
    let bytes = encode_peer_info(&info);
    let expected = vec![
        0, 0, 0, 17, // frame length
        2, // peer-info tag
        0, 1, 97, // id "a"
        1, 2, 3, 4, 0, 5, // public address
        6, 7, 8, 9, 0, 10, // local address
        1, // protocol mask: TCP
    ];
    assert_eq!(bytes, expected);
}

#[test]
fn unicode_identity_round_trip() {
    let reg = Registration {
        client_id: String::from("p\u{e8}re-no\u{eb}l"),
        local_addr: Address::new(127, 0, 0, 1, 1),
        public_addr: None,
        protocols: vec![],
    };
    let bytes = encode_registration(&reg);
    let (back, _) = decode_registration(&bytes).unwrap();
    assert_eq!(back.client_id, "p\u{e8}re-no\u{eb}l");
    assert_eq!(back.protocols, Vec::<Protocol>::new());
}

#[test]
fn truncated_frame_is_rejected() {
    assert_eq!(decode_registration(&[0, 0]).unwrap_err(), DecodeError::Truncated);
    assert_eq!(decode_registration(&[0, 0, 0, 9, 1, 0, 1]).unwrap_err(), DecodeError::Truncated);
    let reg = sample_registration();
    let bytes = encode_registration(&reg);
    assert_eq!(
        decode_registration(&bytes[..bytes.len() - 1]).unwrap_err(),
        DecodeError::Truncated
    );
}

#[test]
fn bad_tag_is_malformed() {
    // Tag 3 is no known message and not in the reserved range.
    let frame = vec![0, 0, 0, 1, 3];
    assert_eq!(decode_registration(&frame).unwrap_err(), DecodeError::Malformed);
    assert_eq!(decode_peer_info(&frame).unwrap_err(), DecodeError::Malformed);
}

#[test]
fn reserved_tag_is_unknown_field() {
    let frame = vec![0, 0, 0, 2, 0x90, 7];
    assert_eq!(decode_registration(&frame).unwrap_err(), DecodeError::UnknownField);
    assert_eq!(decode_peer_info(&frame).unwrap_err(), DecodeError::UnknownField);
}

#[test]
fn invalid_utf8_identity_is_malformed() {
    // Registration, id of one byte 0xFF: not UTF-8.
    let frame = vec![0, 0, 0, 12, 1, 0, 1, 0xFF, 0, 0, 0, 0, 0, 0, 0, 0];
    assert_eq!(decode_registration(&frame).unwrap_err(), DecodeError::Malformed);
}

#[test]
fn unknown_mask_bits_and_trailing_bytes_are_ignored() {
    // Peer-info for "a" with every mask bit set and two trailing bytes.
    let frame = vec![
        0, 0, 0, 19, 2, 0, 1, 97, 1, 2, 3, 4, 0, 5, 6, 7, 8, 9, 0, 10, 0xFF, 0xAA, 0xBB,
    ];
    let (back, used) = decode_peer_info(&frame).unwrap();
    assert_eq!(used, frame.len());
    assert_eq!(back.protocols, vec![Protocol::TCP, Protocol::UDP]);
}

#[test]
fn peer_list_decodes_frames_in_order() {
    let first = PeerInfo {
        id: String::from("alice"),
        public_addr: Address::new(203, 0, 113, 5, 40000),
        local_addr: Address::new(10, 0, 0, 5, 4000),
        protocols: vec![Protocol::TCP, Protocol::UDP],
    };
    let second = PeerInfo {
        id: String::from("bob"),
        public_addr: Address::new(203, 0, 113, 9, 41000),
        local_addr: Address::new(10, 0, 0, 9, 4100),
        protocols: vec![Protocol::TCP],
    };
    let mut bytes = encode_peer_info(&first);
    bytes.extend(encode_peer_info(&second));
    let peers = decode_peer_list(&bytes).unwrap();
    assert_eq!(peers.len(), 2);
    assert_eq!(peers[0].id, "alice");
    assert_eq!(peers[1].id, "bob");
}

#[test]
fn peer_list_skips_reserved_frames() {
    let known = PeerInfo {
        id: String::from("dave"),
        public_addr: Address::new(192, 0, 2, 1, 7000),
        local_addr: Address::new(10, 1, 1, 1, 7001),
        protocols: vec![Protocol::UDP],
    };
    let mut bytes = vec![0, 0, 0, 3, 0x81, 1, 2]; // reserved frame, skipped
    bytes.extend(encode_peer_info(&known));
    let peers = decode_peer_list(&bytes).unwrap();
    assert_eq!(peers.len(), 1);
    assert_eq!(peers[0].id, "dave");
    assert_eq!(peers[0].protocols, vec![Protocol::UDP]);
}

#[test]
fn peer_list_propagates_errors() {
    let bytes = vec![0, 0, 0, 1, 3, 0, 0]; // malformed frame, then garbage
    assert_eq!(decode_peer_list(&bytes).unwrap_err(), DecodeError::Malformed);
    assert_eq!(decode_peer_list(&[0, 0, 0]).unwrap_err(), DecodeError::Truncated);
}

#[test]
fn empty_response_is_empty_list() {
    let peers = decode_peer_list(&[]).unwrap();
    assert!(peers.is_empty());
}
