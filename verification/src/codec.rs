//! Wire codec: length-delimited frames carrying registration and
//! peer-info messages.
//!
//! A frame is a 4-byte big-endian payload length followed by the payload.
//! A payload is a tag byte and the message fields: strings carry a 2-byte
//! big-endian byte length and their UTF-8 bytes, addresses are four octets
//! and a 2-byte big-endian port, and the protocol set is one mask byte
//! whose unknown bits are ignored.  Payload bytes past the known fields,
//! unknown mask bits, and frames with a reserved tag (high bit set) are
//! tolerated for forward compatibility; the last surface as the non-fatal
//! `DecodeError::UnknownField`.

use vstd::prelude::*;
use vstd::arithmetic::div_mod::{lemma_div_denominator, lemma_fundamental_div_mod};
use vstd::slice::{slice_index_get, slice_subrange, slice_to_vec};
use vstd::utf8::{decode_utf8, encode_utf8, encode_utf8_decode_utf8, valid_utf8};
use crate::{
    canonical_protocols, list_has_protocol, protocols_from_set, Address, DecodeError, PeerInfo,
    PeerInfoSem, Protocol, Registration, RegistrationSem,
};

verus! {

/// Payload tag of a registration message.
pub const TAG_REGISTRATION: u8 = 1;

/// Payload tag of a peer-info message.
pub const TAG_PEER_INFO: u8 = 2;

/// Tags with the high bit set are reserved for future message kinds.
pub const TAG_RESERVED_FLOOR: u8 = 128;

// ---------------------------------------------------------------------
// Integer fields, big-endian.
// ---------------------------------------------------------------------

/// High byte of a 16-bit big-endian field.
pub open spec fn be16_hi(n: u16) -> u8 {
    (n / 256) as u8
}

/// Low byte of a 16-bit big-endian field.
pub open spec fn be16_lo(n: u16) -> u8 {
    (n % 256) as u8
}

/// Value of a 16-bit big-endian field.
pub open spec fn dec16(b0: u8, b1: u8) -> int {
    b0 * 256 + b1
}

/// The four bytes of a 32-bit big-endian field.
pub open spec fn be32(n: u32) -> Seq<u8> {
    seq![
        (n / 0x1000000) as u8,
        ((n / 0x10000) % 256) as u8,
        ((n / 256) % 256) as u8,
        (n % 256) as u8,
    ]
}

/// Value of a 32-bit big-endian field.
pub open spec fn dec32(b0: u8, b1: u8, b2: u8, b3: u8) -> int {
    ((b0 * 256 + b1) * 256 + b2) * 256 + b3
}

/// A 16-bit field survives the byte round trip.
pub proof fn lemma_be16_round(n: u16)
    ensures
        dec16(be16_hi(n), be16_lo(n)) == n,
{
    lemma_fundamental_div_mod(n as int, 256);
}

/// A 32-bit field survives the byte round trip.
pub proof fn lemma_be32_round(n: u32)
    ensures
        dec32(be32(n)[0], be32(n)[1], be32(n)[2], be32(n)[3]) == n,
{
    let x = n as int;
    let q1 = x / 256;
    let q2 = x / 0x10000;
    let q3 = x / 0x1000000;
    lemma_fundamental_div_mod(x, 256);
    lemma_fundamental_div_mod(q1, 256);
    lemma_fundamental_div_mod(q2, 256);
    lemma_div_denominator(x, 256, 256);
    assert(q1 / 256 == q2);
    lemma_div_denominator(x, 0x10000, 256);
    assert(q2 / 256 == q3);
}

// ---------------------------------------------------------------------
// Field encodings.
// ---------------------------------------------------------------------

/// Bytes of an address: the four octets, then the port big-endian.
pub open spec fn enc_addr(a: Address) -> Seq<u8> {
    seq![a.o1, a.o2, a.o3, a.o4, be16_hi(a.port), be16_lo(a.port)]
}

/// The address read at offset `o`.
pub open spec fn dec_addr_at(b: Seq<u8>, o: int) -> Address {
    Address {
        o1: b[o],
        o2: b[o + 1],
        o3: b[o + 2],
        o4: b[o + 3],
        port: dec16(b[o + 4], b[o + 5]) as u16,
    }
}

/// Protocol mask byte: bit 0 is TCP, bit 1 is UDP.
pub open spec fn proto_mask(tcp: bool, udp: bool) -> u8 {
    ((if tcp {
        1int
    } else {
        0int
    }) + (if udp {
        2int
    } else {
        0int
    })) as u8
}

/// Whether a mask byte announces TCP; bits past the two known ones are
/// ignored.
pub open spec fn mask_tcp(m: u8) -> bool {
    m % 2 == 1
}

/// Whether a mask byte announces UDP.
pub open spec fn mask_udp(m: u8) -> bool {
    (m / 2) % 2 == 1
}

/// The protocol set survives the mask round trip.
pub proof fn lemma_mask_round(tcp: bool, udp: bool)
    ensures
        mask_tcp(proto_mask(tcp, udp)) == tcp,
        mask_udp(proto_mask(tcp, udp)) == udp,
{
}

/// Bytes of a string field: 2-byte big-endian byte length, then the
/// UTF-8 bytes.  Meaningful when the UTF-8 encoding fits 16 bits.
pub open spec fn enc_str(s: Seq<char>) -> Seq<u8> {
    let bs = encode_utf8(s);
    seq![be16_hi(bs.len() as u16), be16_lo(bs.len() as u16)] + bs
}

// ---------------------------------------------------------------------
// Message payloads and frames.
// ---------------------------------------------------------------------

/// Payload of a registration message.
pub open spec fn enc_registration_payload(r: RegistrationSem) -> Seq<u8> {
    seq![TAG_REGISTRATION] + enc_str(r.client_id) + enc_addr(r.local_addr) + (match r
        .public_addr {
        Some(a) => seq![1u8] + enc_addr(a),
        None => seq![0u8],
    }) + seq![proto_mask(r.tcp, r.udp)]
}

/// Payload of a peer-info message.
pub open spec fn enc_peer_info_payload(p: PeerInfoSem) -> Seq<u8> {
    seq![TAG_PEER_INFO] + enc_str(p.id) + enc_addr(p.public_addr) + enc_addr(p.local_addr)
        + seq![proto_mask(p.tcp, p.udp)]
}

/// A frame: 4-byte big-endian payload length, then the payload.
pub open spec fn frame_of(p: Seq<u8>) -> Seq<u8> {
    be32(p.len() as u32) + p
}

/// The framed bytes of a registration message.
pub open spec fn enc_registration(r: RegistrationSem) -> Seq<u8> {
    frame_of(enc_registration_payload(r))
}

/// The framed bytes of a peer-info message.
pub open spec fn enc_peer_info(p: PeerInfoSem) -> Seq<u8> {
    frame_of(enc_peer_info_payload(p))
}

/// Splits one frame off the front of `b`: its payload and the total
/// number of bytes consumed.
pub open spec fn dec_frame(b: Seq<u8>) -> Result<(Seq<u8>, int), DecodeError> {
    if b.len() < 4 {
        Err(DecodeError::Truncated)
    } else {
        let n = dec32(b[0], b[1], b[2], b[3]);
        if b.len() < 4 + n {
            Err(DecodeError::Truncated)
        } else {
            Ok((b.subrange(4, 4 + n), 4 + n))
        }
    }
}

/// Decodes a registration payload.  Trailing payload bytes are ignored
/// for forward compatibility.
pub open spec fn dec_registration_payload(p: Seq<u8>) -> Result<RegistrationSem, DecodeError> {
    if p.len() < 1 {
        Err(DecodeError::Truncated)
    } else if p[0] != TAG_REGISTRATION {
        if p[0] >= TAG_RESERVED_FLOOR {
            Err(DecodeError::UnknownField)
        } else {
            Err(DecodeError::Malformed)
        }
    } else if p.len() < 3 {
        Err(DecodeError::Truncated)
    } else {
        let sl = dec16(p[1], p[2]);
        if p.len() < 3 + sl {
            Err(DecodeError::Truncated)
        } else {
            let sb = p.subrange(3, 3 + sl);
            if !valid_utf8(sb) {
                Err(DecodeError::Malformed)
            } else {
                let o = 3 + sl;
                if p.len() < o + 7 {
                    Err(DecodeError::Truncated)
                } else {
                    let la = dec_addr_at(p, o);
                    let f = p[o + 6];
                    if f == 0 {
                        if p.len() < o + 8 {
                            Err(DecodeError::Truncated)
                        } else {
                            Ok(RegistrationSem {
                                client_id: decode_utf8(sb),
                                local_addr: la,
                                public_addr: None,
                                tcp: mask_tcp(p[o + 7]),
                                udp: mask_udp(p[o + 7]),
                            })
                        }
                    } else if f == 1 {
                        if p.len() < o + 14 {
                            Err(DecodeError::Truncated)
                        } else {
                            Ok(RegistrationSem {
                                client_id: decode_utf8(sb),
                                local_addr: la,
                                public_addr: Some(dec_addr_at(p, o + 7)),
                                tcp: mask_tcp(p[o + 13]),
                                udp: mask_udp(p[o + 13]),
                            })
                        }
                    } else {
                        Err(DecodeError::Malformed)
                    }
                }
            }
        }
    }
}

/// Decodes a peer-info payload.  Trailing payload bytes are ignored for
/// forward compatibility.
pub open spec fn dec_peer_info_payload(p: Seq<u8>) -> Result<PeerInfoSem, DecodeError> {
    if p.len() < 1 {
        Err(DecodeError::Truncated)
    } else if p[0] != TAG_PEER_INFO {
        if p[0] >= TAG_RESERVED_FLOOR {
            Err(DecodeError::UnknownField)
        } else {
            Err(DecodeError::Malformed)
        }
    } else if p.len() < 3 {
        Err(DecodeError::Truncated)
    } else {
        let sl = dec16(p[1], p[2]);
        if p.len() < 3 + sl {
            Err(DecodeError::Truncated)
        } else {
            let sb = p.subrange(3, 3 + sl);
            if !valid_utf8(sb) {
                Err(DecodeError::Malformed)
            } else {
                let o = 3 + sl;
                if p.len() < o + 13 {
                    Err(DecodeError::Truncated)
                } else {
                    Ok(PeerInfoSem {
                        id: decode_utf8(sb),
                        public_addr: dec_addr_at(p, o),
                        local_addr: dec_addr_at(p, o + 6),
                        tcp: mask_tcp(p[o + 12]),
                        udp: mask_udp(p[o + 12]),
                    })
                }
            }
        }
    }
}

/// Decodes one registration frame from the front of `b`: the message
/// and the number of bytes consumed.
pub open spec fn dec_registration(b: Seq<u8>) -> Result<(RegistrationSem, int), DecodeError> {
    match dec_frame(b) {
        Ok(pn) => match dec_registration_payload(pn.0) {
            Ok(r) => Ok((r, pn.1)),
            Err(e) => Err(e),
        },
        Err(e) => Err(e),
    }
}

/// Decodes one peer-info frame from the front of `b`: the message and
/// the number of bytes consumed.
pub open spec fn dec_peer_info(b: Seq<u8>) -> Result<(PeerInfoSem, int), DecodeError> {
    match dec_frame(b) {
        Ok(pn) => match dec_peer_info_payload(pn.0) {
            Ok(r) => Ok((r, pn.1)),
            Err(e) => Err(e),
        },
        Err(e) => Err(e),
    }
}

// ---------------------------------------------------------------------
// Encoders.
// ---------------------------------------------------------------------

/// Appends the byte encoding of an address.
fn push_addr(out: &mut Vec<u8>, a: Address)
    ensures
        final(out)@ == old(out)@ + enc_addr(a),
{
    out.push(a.o1);
    out.push(a.o2);
    out.push(a.o3);
    out.push(a.o4);
    out.push((a.port / 256) as u8);
    out.push((a.port % 256) as u8);
    proof {
        assert(out@ =~= old(out)@ + enc_addr(a));
    }
}

/// Computes the protocol mask byte of a protocol list.
fn mask_of_list(v: &Vec<Protocol>) -> (m: u8)
    ensures
        m == proto_mask(v@.contains(Protocol::TCP), v@.contains(Protocol::UDP)),
{
    let t: u8 = if list_has_protocol(v, Protocol::TCP) {
        1
    } else {
        0
    };
    let u: u8 = if list_has_protocol(v, Protocol::UDP) {
        2
    } else {
        0
    };
    t + u
}

/// Wraps a payload in a length-prefixed frame.
fn finish_frame(payload: Vec<u8>) -> (out: Vec<u8>)
    requires
        payload@.len() <= 0xFFFFFFFF,
    ensures
        out@ == frame_of(payload@),
{
    let pl: usize = payload.len();
    let mut out: Vec<u8> = Vec::new();
    out.push((pl / 0x1000000) as u8);
    out.push(((pl / 0x10000) % 256) as u8);
    out.push(((pl / 256) % 256) as u8);
    out.push((pl % 256) as u8);
    out.extend_from_slice(payload.as_slice());
    proof {
        assert(out@ =~= frame_of(payload@));
    }
    out
}

/// Appends a string field: 2-byte big-endian byte length, then the
/// UTF-8 bytes.
fn push_str(out: &mut Vec<u8>, s: &String)
    requires
        encode_utf8(s@).len() <= 0xFFFF,
    ensures
        final(out)@ == old(out)@ + enc_str(s@),
{
    let bytes: &[u8] = s.as_str().as_bytes();
    let bl: usize = bytes.len();
    out.push((bl / 256) as u8);
    out.push((bl % 256) as u8);
    out.extend_from_slice(bytes);
    proof {
        assert(out@ =~= old(out)@ + enc_str(s@));
    }
}

/// Encodes a registration message as one frame.  The identity must fit
/// the 16-bit string length field; `frame_fits` checks that bound.
pub fn encode_registration(r: &Registration) -> (out: Vec<u8>)
    requires
        encode_utf8(r.client_id@).len() <= 0xFFFF,
    ensures
        out@ == enc_registration(r.sem()),
{
    let mut payload: Vec<u8> = Vec::new();
    payload.push(TAG_REGISTRATION);
    push_str(&mut payload, &r.client_id);
    push_addr(&mut payload, r.local_addr);
    match r.public_addr {
        Some(a) => {
            payload.push(1);
            push_addr(&mut payload, a);
        },
        None => {
            payload.push(0);
        },
    }
    let m = mask_of_list(&r.protocols);
    payload.push(m);
    proof {
        assert(payload@ =~= enc_registration_payload(r.sem()));
    }
    finish_frame(payload)
}

/// Encodes a peer-info message as one frame.  The identity must fit the
/// 16-bit string length field; `frame_fits` checks that bound.
pub fn encode_peer_info(p: &PeerInfo) -> (out: Vec<u8>)
    requires
        encode_utf8(p.id@).len() <= 0xFFFF,
    ensures
        out@ == enc_peer_info(p.sem()),
{
    let mut payload: Vec<u8> = Vec::new();
    payload.push(TAG_PEER_INFO);
    push_str(&mut payload, &p.id);
    push_addr(&mut payload, p.public_addr);
    push_addr(&mut payload, p.local_addr);
    let m = mask_of_list(&p.protocols);
    payload.push(m);
    proof {
        assert(payload@ =~= enc_peer_info_payload(p.sem()));
    }
    finish_frame(payload)
}

/// Whether an identity fits the codec's 16-bit string length field.
/// Callers check this before encoding.
pub fn frame_fits(id: &String) -> (r: bool)
    ensures
        r == (encode_utf8(id@).len() <= 0xFFFF),
{
    id.as_str().as_bytes().len() <= 0xFFFF
}

// ---------------------------------------------------------------------
// Decoders.
// ---------------------------------------------------------------------

/// Relies on `String::from_utf8` (std): it returns `Ok` exactly when the
/// bytes are valid UTF-8, and the returned string is the one those bytes
/// encode.
#[verifier::external_body]
fn string_from_utf8(bytes: Vec<u8>) -> (r: Option<String>)
    ensures
        r is Some <==> valid_utf8(bytes@),
        r matches Some(s) ==> encode_utf8(s@) == bytes@,
{
    String::from_utf8(bytes).ok()
}

/// Reads an address at offset `o`.
fn read_addr(bytes: &[u8], o: usize) -> (a: Address)
    requires
        o + 6 <= bytes@.len(),
    ensures
        a == dec_addr_at(bytes@, o as int),
{
    let len: usize = bytes.len();
    proof {
        assert(o + 6 <= len);
    }
    let port: u16 = (*slice_index_get(bytes, o + 4) as u16) * 256 + (*slice_index_get(
        bytes,
        o + 5,
    ) as u16);
    Address {
        o1: *slice_index_get(bytes, o),
        o2: *slice_index_get(bytes, o + 1),
        o3: *slice_index_get(bytes, o + 2),
        o4: *slice_index_get(bytes, o + 3),
        port,
    }
}

/// Reads the 4-byte length prefix and checks it against the input:
/// the payload length, if the whole frame is present.
fn read_frame_len(bytes: &[u8]) -> (r: Result<(usize, usize), DecodeError>)
    ensures
        match r {
            Ok(nc) => {
                &&& dec_frame(bytes@) matches Ok(pn)
                &&& pn.0 == bytes@.subrange(4, 4 + nc.0 as int)
                &&& pn.1 == 4 + nc.0 as int
                &&& nc.1 == 4 + nc.0
                &&& 4 + nc.0 <= bytes@.len()
            },
            Err(e) => dec_frame(bytes@) == Err::<(Seq<u8>, int), DecodeError>(e),
        },
{
    if bytes.len() < 4 {
        return Err(DecodeError::Truncated);
    }
    let b0 = *slice_index_get(bytes, 0);
    let b1 = *slice_index_get(bytes, 1);
    let b2 = *slice_index_get(bytes, 2);
    let b3 = *slice_index_get(bytes, 3);
    let n: u64 = ((b0 as u64 * 256 + b1 as u64) * 256 + b2 as u64) * 256 + b3 as u64;
    if (bytes.len() as u64) < 4 + n {
        return Err(DecodeError::Truncated);
    }
    Ok((n as usize, n as usize + 4))
}

/// Decodes one registration frame from the front of `bytes`: the message
/// and the number of bytes consumed.  The result is exactly what the
/// specification-level decoder `dec_registration` gives, the protocol
/// list in canonical order.
pub fn decode_registration(bytes: &[u8]) -> (r: Result<(Registration, usize), DecodeError>)
    ensures
        match r {
            Ok(m) => {
                &&& dec_registration(bytes@) == Ok::<(RegistrationSem, int), DecodeError>(
                    (m.0.sem(), m.1 as int),
                )
                &&& m.0.protocols@ == canonical_protocols(m.0.sem().tcp, m.0.sem().udp)
                &&& m.1 <= bytes@.len()
            },
            Err(e) => dec_registration(bytes@) == Err::<(RegistrationSem, int), DecodeError>(e),
        },
{
    let (n, consumed) = match read_frame_len(bytes) {
        Ok(nc) => nc,
        Err(e) => {
            return Err(e);
        },
    };
    let ghost p = bytes@.subrange(4, 4 + n as int);
    if n < 1 {
        return Err(DecodeError::Truncated);
    }
    let tag = *slice_index_get(bytes, 4);
    proof {
        assert(p[0] == bytes@[4]);
    }
    if tag != TAG_REGISTRATION {
        if tag >= TAG_RESERVED_FLOOR {
            return Err(DecodeError::UnknownField);
        }
        return Err(DecodeError::Malformed);
    }
    if n < 3 {
        return Err(DecodeError::Truncated);
    }
    let sl: usize = (*slice_index_get(bytes, 5) as usize) * 256 + (*slice_index_get(
        bytes,
        6,
    ) as usize);
    proof {
        assert(dec16(p[1], p[2]) == sl);
    }
    if n < 3 + sl {
        return Err(DecodeError::Truncated);
    }
    let sb = slice_subrange(bytes, 7, 7 + sl);
    proof {
        assert(sb@ =~= p.subrange(3, 3 + sl as int));
    }
    let id = match string_from_utf8(slice_to_vec(sb)) {
        Some(s) => s,
        None => {
            return Err(DecodeError::Malformed);
        },
    };
    proof {
        encode_utf8_decode_utf8(id@);
    }
    let o: usize = 7 + sl;
    if n < sl + 10 {
        return Err(DecodeError::Truncated);
    }
    let la = read_addr(bytes, o);
    proof {
        assert(la == dec_addr_at(p, 3 + sl as int));
    }
    let f = *slice_index_get(bytes, o + 6);
    proof {
        assert(f == p[3 + sl as int + 6]);
    }
    if f == 0 {
        if n < sl + 11 {
            return Err(DecodeError::Truncated);
        }
        let mk = *slice_index_get(bytes, o + 7);
        proof {
            assert(mk == p[3 + sl as int + 7]);
        }
        let reg = Registration {
            client_id: id,
            local_addr: la,
            public_addr: None,
            protocols: protocols_from_set(mk % 2 == 1, (mk / 2) % 2 == 1),
        };
        Ok((reg, consumed))
    } else if f == 1 {
        if n < sl + 17 {
            return Err(DecodeError::Truncated);
        }
        let pa = read_addr(bytes, o + 7);
        proof {
            assert(pa == dec_addr_at(p, 3 + sl as int + 7));
        }
        let mk = *slice_index_get(bytes, o + 13);
        proof {
            assert(mk == p[3 + sl as int + 13]);
        }
        let reg = Registration {
            client_id: id,
            local_addr: la,
            public_addr: Some(pa),
            protocols: protocols_from_set(mk % 2 == 1, (mk / 2) % 2 == 1),
        };
        Ok((reg, consumed))
    } else {
        Err(DecodeError::Malformed)
    }
}

/// Decodes one peer-info frame from the front of `bytes`: the message
/// and the number of bytes consumed.  The result is exactly what the
/// specification-level decoder `dec_peer_info` gives, the protocol list
/// in canonical order.
pub fn decode_peer_info(bytes: &[u8]) -> (r: Result<(PeerInfo, usize), DecodeError>)
    ensures
        match r {
            Ok(m) => {
                &&& dec_peer_info(bytes@) == Ok::<(PeerInfoSem, int), DecodeError>(
                    (m.0.sem(), m.1 as int),
                )
                &&& m.0.protocols@ == canonical_protocols(m.0.sem().tcp, m.0.sem().udp)
                &&& m.1 <= bytes@.len()
            },
            Err(e) => dec_peer_info(bytes@) == Err::<(PeerInfoSem, int), DecodeError>(e),
        },
{
    let (n, consumed) = match read_frame_len(bytes) {
        Ok(nc) => nc,
        Err(e) => {
            return Err(e);
        },
    };
    let ghost p = bytes@.subrange(4, 4 + n as int);
    if n < 1 {
        return Err(DecodeError::Truncated);
    }
    let tag = *slice_index_get(bytes, 4);
    proof {
        assert(p[0] == bytes@[4]);
    }
    if tag != TAG_PEER_INFO {
        if tag >= TAG_RESERVED_FLOOR {
            return Err(DecodeError::UnknownField);
        }
        return Err(DecodeError::Malformed);
    }
    if n < 3 {
        return Err(DecodeError::Truncated);
    }
    let sl: usize = (*slice_index_get(bytes, 5) as usize) * 256 + (*slice_index_get(
        bytes,
        6,
    ) as usize);
    proof {
        assert(dec16(p[1], p[2]) == sl);
    }
    if n < 3 + sl {
        return Err(DecodeError::Truncated);
    }
    let sb = slice_subrange(bytes, 7, 7 + sl);
    proof {
        assert(sb@ =~= p.subrange(3, 3 + sl as int));
    }
    let id = match string_from_utf8(slice_to_vec(sb)) {
        Some(s) => s,
        None => {
            return Err(DecodeError::Malformed);
        },
    };
    proof {
        encode_utf8_decode_utf8(id@);
    }
    let o: usize = 7 + sl;
    if n < sl + 16 {
        return Err(DecodeError::Truncated);
    }
    let pa = read_addr(bytes, o);
    let la = read_addr(bytes, o + 6);
    let mk = *slice_index_get(bytes, o + 12);
    proof {
        assert(pa == dec_addr_at(p, 3 + sl as int));
        assert(la == dec_addr_at(p, 3 + sl as int + 6));
        assert(mk == p[3 + sl as int + 12]);
    }
    let info = PeerInfo {
        id,
        public_addr: pa,
        local_addr: la,
        protocols: protocols_from_set(mk % 2 == 1, (mk / 2) % 2 == 1),
    };
    Ok((info, consumed))
}

// ---------------------------------------------------------------------
// Frame sequences: a discovery response is one frame per peer.
// ---------------------------------------------------------------------

/// Decodes a whole discovery response: peer-info frames until the end of
/// the input.  Frames with a reserved tag are skipped (forward
/// compatibility); any other fault ends the decode with its error.
pub open spec fn dec_peer_list(b: Seq<u8>) -> Result<Seq<PeerInfoSem>, DecodeError>
    decreases b.len(),
{
    if b.len() == 0 {
        Ok(Seq::empty())
    } else {
        match dec_frame(b) {
            Err(e) => Err(e),
            Ok(pn) => {
                if pn.1 <= 0 || pn.1 > b.len() {
                    Err(DecodeError::Truncated)
                } else {
                    let rest = b.subrange(pn.1, b.len() as int);
                    match dec_peer_info_payload(pn.0) {
                        Ok(pi) => match dec_peer_list(rest) {
                            Ok(s) => Ok(seq![pi] + s),
                            Err(e) => Err(e),
                        },
                        Err(DecodeError::UnknownField) => dec_peer_list(rest),
                        Err(e) => Err(e),
                    }
                }
            },
        }
    }
}

/// Prefixes already-decoded peers onto the outcome of decoding the rest.
pub open spec fn prepend_peers(
    done: Seq<PeerInfoSem>,
    rest: Result<Seq<PeerInfoSem>, DecodeError>,
) -> Result<Seq<PeerInfoSem>, DecodeError> {
    match rest {
        Ok(s) => Ok(done + s),
        Err(e) => Err(e),
    }
}

/// Decodes a whole discovery response, skipping reserved-tag frames.
/// The result is exactly what the specification-level decoder
/// `dec_peer_list` gives, each protocol list in canonical order.
pub fn decode_peer_list(bytes: &[u8]) -> (r: Result<Vec<PeerInfo>, DecodeError>)
    ensures
        match r {
            Ok(v) => {
                &&& dec_peer_list(bytes@) == Ok::<Seq<PeerInfoSem>, DecodeError>(
                    v@.map_values(|p: PeerInfo| p.sem()),
                )
                &&& forall|i: int|
                    0 <= i < v@.len() ==> (#[trigger] v@[i]).protocols@ == canonical_protocols(
                        v@[i].sem().tcp,
                        v@[i].sem().udp,
                    )
            },
            Err(e) => dec_peer_list(bytes@) == Err::<Seq<PeerInfoSem>, DecodeError>(e),
        },
{
    let len: usize = bytes.len();
    let mut off: usize = 0;
    let mut out: Vec<PeerInfo> = Vec::new();
    proof {
        assert(out@.map_values(|p: PeerInfo| p.sem()) =~= Seq::<PeerInfoSem>::empty());
        assert(bytes@.subrange(0, len as int) =~= bytes@);
        if let Ok(s) = dec_peer_list(bytes@) {
            assert(Seq::<PeerInfoSem>::empty() + s =~= s);
        }
    }
    while off < len
        invariant
            off <= len,
            len == bytes@.len(),
            dec_peer_list(bytes@) == prepend_peers(
                out@.map_values(|p: PeerInfo| p.sem()),
                dec_peer_list(bytes@.subrange(off as int, len as int)),
            ),
            forall|i: int|
                0 <= i < out@.len() ==> (#[trigger] out@[i]).protocols@ == canonical_protocols(
                    out@[i].sem().tcp,
                    out@[i].sem().udp,
                ),
        decreases len - off,
    {
        let tail = slice_subrange(bytes, off, len);
        let ghost trest = tail@;
        let (_n, consumed) = match read_frame_len(tail) {
            Ok(nc) => nc,
            Err(e) => {
                return Err(e);
            },
        };
        let ghost srest = bytes@.subrange(off as int + consumed as int, len as int);
        proof {
            assert(trest.subrange(consumed as int, trest.len() as int) =~= srest);
        }
        match decode_peer_info(tail) {
            Ok((pi, used)) => {
                let ghost old_out = out@;
                out.push(pi);
                proof {
                    let f = |p: PeerInfo| p.sem();
                    assert(out@.map_values(f) =~= old_out.map_values(f).push(pi.sem()));
                    if let Ok(s) = dec_peer_list(srest) {
                        assert(old_out.map_values(f) + (seq![pi.sem()] + s) =~= out@.map_values(f)
                            + s);
                    }
                }
                off = off + used;
            },
            Err(DecodeError::UnknownField) => {
                off = off + consumed;
            },
            Err(e) => {
                return Err(e);
            },
        }
    }
    proof {
        assert(bytes@.subrange(off as int, len as int) =~= Seq::<u8>::empty());
        assert(out@.map_values(|p: PeerInfo| p.sem()) + Seq::<PeerInfoSem>::empty() =~= out@
            .map_values(|p: PeerInfo| p.sem()));
    }
    Ok(out)
}

// ---------------------------------------------------------------------
// Round trips.
// ---------------------------------------------------------------------

/// Law: decoding an encoded registration message reproduces it exactly —
/// the identity, both addresses and the protocol set — and consumes the
/// whole frame.
#[verifier::rlimit(80)]
pub proof fn lemma_registration_round_trip(r: RegistrationSem)
    requires
        encode_utf8(r.client_id).len() <= 0xFFFF,
    ensures
        dec_registration(enc_registration(r)) == Ok::<(RegistrationSem, int), DecodeError>(
            (r, enc_registration(r).len() as int),
        ),
{
    broadcast use vstd::utf8::encode_utf8_valid_utf8;

    let bs = encode_utf8(r.client_id);
    let bl = bs.len() as int;
    let p = enc_registration_payload(r);
    let b = enc_registration(r);
    let pl = p.len() as int;
    lemma_be32_round(pl as u32);
    assert(b.subrange(4, 4 + pl) =~= p);
    assert(dec_frame(b) == Ok::<(Seq<u8>, int), DecodeError>((p, 4 + pl)));
    // The payload fields sit at their stated offsets.
    assert(p[0] == TAG_REGISTRATION);
    lemma_be16_round(bl as u16);
    assert(p[1] == be16_hi(bl as u16));
    assert(p[2] == be16_lo(bl as u16));
    assert(dec16(p[1], p[2]) == bl);
    assert(p.subrange(3, 3 + bl) =~= bs);
    encode_utf8_decode_utf8(r.client_id);
    let o = 3 + bl;
    lemma_be16_round(r.local_addr.port);
    assert(dec_addr_at(p, o) == r.local_addr);
    lemma_mask_round(r.tcp, r.udp);
    match r.public_addr {
        Some(a) => {
            assert(p[o + 6] == 1u8);
            lemma_be16_round(a.port);
            assert(dec_addr_at(p, o + 7) == a);
            assert(p[o + 13] == proto_mask(r.tcp, r.udp));
            assert(dec_registration_payload(p) == Ok::<RegistrationSem, DecodeError>(r));
        },
        None => {
            assert(p[o + 6] == 0u8);
            assert(p[o + 7] == proto_mask(r.tcp, r.udp));
            assert(dec_registration_payload(p) == Ok::<RegistrationSem, DecodeError>(r));
        },
    }
}

/// The framed bytes of a whole discovery response: one frame per peer,
/// concatenated in order.
pub open spec fn enc_peer_list(ps: Seq<PeerInfoSem>) -> Seq<u8>
    decreases ps.len(),
{
    if ps.len() == 0 {
        Seq::empty()
    } else {
        enc_peer_info(ps[0]) + enc_peer_list(ps.subrange(1, ps.len() as int))
    }
}

/// Law: decoding a whole encoded discovery response — the concatenation
/// of one frame per peer — reproduces exactly that peer list, in order.
pub proof fn lemma_peer_list_round_trip(ps: Seq<PeerInfoSem>)
    requires
        forall|i: int| 0 <= i < ps.len() ==> encode_utf8((#[trigger] ps[i]).id).len() <= 0xFFFF,
    ensures
        dec_peer_list(enc_peer_list(ps)) == Ok::<Seq<PeerInfoSem>, DecodeError>(ps),
    decreases ps.len(),
{
    if ps.len() == 0 {
        assert(ps =~= Seq::<PeerInfoSem>::empty());
    } else {
        let rest = ps.subrange(1, ps.len() as int);
        let b1 = enc_peer_info(ps[0]);
        let b2 = enc_peer_list(rest);
        let b = b1 + b2;
        assert(b =~= enc_peer_list(ps));
        lemma_peer_info_round_trip(ps[0]);
        let p1 = enc_peer_info_payload(ps[0]);
        let pl = p1.len() as int;
        lemma_be32_round(pl as u32);
        assert(b1.len() == 4 + pl);
        assert(b[0] == b1[0] && b[1] == b1[1] && b[2] == b1[2] && b[3] == b1[3]);
        assert(dec32(b[0], b[1], b[2], b[3]) == pl);
        assert(b1.subrange(4, 4 + pl) =~= p1);
        assert(dec_frame(b1) == Ok::<(Seq<u8>, int), DecodeError>((p1, 4 + pl)));
        assert(dec_peer_info_payload(p1) == Ok::<PeerInfoSem, DecodeError>(ps[0]));
        assert(b.subrange(4, 4 + pl) =~= p1);
        assert(dec_frame(b) == Ok::<(Seq<u8>, int), DecodeError>((p1, 4 + pl)));
        assert(b.subrange(4 + pl, b.len() as int) =~= b2);
        lemma_peer_list_round_trip(rest);
        assert(seq![ps[0]] + rest =~= ps);
    }
}

/// Law: decoding an encoded peer-info message reproduces it exactly and
/// consumes the whole frame.
pub proof fn lemma_peer_info_round_trip(pi: PeerInfoSem)
    requires
        encode_utf8(pi.id).len() <= 0xFFFF,
    ensures
        dec_peer_info(enc_peer_info(pi)) == Ok::<(PeerInfoSem, int), DecodeError>(
            (pi, enc_peer_info(pi).len() as int),
        ),
{
    broadcast use vstd::utf8::encode_utf8_valid_utf8;

    let bs = encode_utf8(pi.id);
    let bl = bs.len() as int;
    let p = enc_peer_info_payload(pi);
    let b = enc_peer_info(pi);
    let pl = p.len() as int;
    lemma_be32_round(pl as u32);
    assert(b.subrange(4, 4 + pl) =~= p);
    assert(dec_frame(b) == Ok::<(Seq<u8>, int), DecodeError>((p, 4 + pl)));
    assert(p[0] == TAG_PEER_INFO);
    lemma_be16_round(bl as u16);
    assert(p[1] == be16_hi(bl as u16));
    assert(p[2] == be16_lo(bl as u16));
    assert(dec16(p[1], p[2]) == bl);
    assert(p.subrange(3, 3 + bl) =~= bs);
    encode_utf8_decode_utf8(pi.id);
    let o = 3 + bl;
    lemma_be16_round(pi.public_addr.port);
    lemma_be16_round(pi.local_addr.port);
    assert(dec_addr_at(p, o) == pi.public_addr);
    assert(dec_addr_at(p, o + 6) == pi.local_addr);
    lemma_mask_round(pi.tcp, pi.udp);
    assert(p[o + 12] == proto_mask(pi.tcp, pi.udp));
    assert(dec_peer_info_payload(p) == Ok::<PeerInfoSem, DecodeError>(pi));
}

} // verus!
