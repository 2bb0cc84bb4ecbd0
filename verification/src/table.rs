//! Rendezvous table: identity to announced endpoint, last write wins.
//!
//! The server holds one table behind a lock; each connection handler
//! decodes one registration, upserts it with the connection's observed
//! peer address (never the claimed one), and answers with a frame per
//! currently known other peer.  The decode-upsert-respond step is the
//! pure core here; the lock and the socket stay outside the library.

use vstd::prelude::*;
use vstd::utf8::{decode_utf8, decode_utf8_encode_utf8, encode_utf8, valid_utf8};
use crate::codec::{
    dec16, dec_frame, dec_registration, decode_registration, enc_peer_info, encode_peer_info,
};
use crate::{Address, DecodeError, PeerInfo, PeerInfoSem, Registration, RegistrationSem};

verus! {

/// The endpoint the server announces for a registration observed from
/// `observed`: the claimed public address is ignored.
pub open spec fn endpoint_of(r: RegistrationSem, observed: Address) -> PeerInfoSem {
    PeerInfoSem {
        id: r.client_id,
        public_addr: observed,
        local_addr: r.local_addr,
        tcp: r.tcp,
        udp: r.udp,
    }
}

/// Whether `s` holds an entry for `id`.
pub open spec fn has_id(s: Seq<PeerInfoSem>, id: Seq<char>) -> bool {
    exists|i: int| 0 <= i < s.len() && s[i].id == id
}

/// The entries of `s`, with `e` replacing the entry of its identity, or
/// appended if the identity is new.
pub open spec fn upsert_seq(s: Seq<PeerInfoSem>, e: PeerInfoSem) -> Seq<PeerInfoSem> {
    if has_id(s, e.id) {
        s.update(choose|i: int| 0 <= i < s.len() && s[i].id == e.id, e)
    } else {
        s.push(e)
    }
}

/// The entry of `id` in `s`, if any.
pub open spec fn lookup_seq(s: Seq<PeerInfoSem>, id: Seq<char>) -> Option<PeerInfoSem>
    decreases s.len(),
{
    if s.len() == 0 {
        None
    } else if s.last().id == id {
        Some(s.last())
    } else {
        lookup_seq(s.drop_last(), id)
    }
}

/// At most one entry per identity.
pub open spec fn unique_ids(s: Seq<PeerInfoSem>) -> bool {
    forall|i: int, j: int| 0 <= i < j < s.len() ==> s[i].id != s[j].id
}

/// Identity to announced endpoint; one entry per identity, none expired.
pub struct RendezvousTable {
    entries: Vec<PeerInfo>,
}

impl RendezvousTable {
    /// The table's content, in registration order for fresh identities.
    pub closed spec fn view(&self) -> Seq<PeerInfoSem> {
        self.entries@.map_values(|p: PeerInfo| p.sem())
    }

    /// Identities are unique and every stored identity fits the codec's
    /// string length field.
    pub open spec fn wf(&self) -> bool {
        &&& unique_ids(self@)
        &&& forall|i: int|
            0 <= i < self@.len() ==> encode_utf8((#[trigger] self@[i]).id).len() <= 0xFFFF
    }

    /// An empty table.
    pub fn new() -> (t: RendezvousTable)
        ensures
            t.wf(),
            t@ == Seq::<PeerInfoSem>::empty(),
    {
        let t = RendezvousTable { entries: Vec::new() };
        proof {
            assert(t@ =~= Seq::<PeerInfoSem>::empty());
        }
        t
    }

    /// Upserts the endpoint announced for `reg` as observed from
    /// `observed`: last write wins, other entries untouched.
    pub fn register(&mut self, reg: &Registration, observed: Address)
        requires
            old(self).wf(),
            encode_utf8(reg.client_id@).len() <= 0xFFFF,
        ensures
            final(self).wf(),
            final(self)@ == upsert_seq(old(self)@, endpoint_of(reg.sem(), observed)),
    {
        let ghost e = endpoint_of(reg.sem(), observed);
        let info = PeerInfo {
            id: reg.client_id.clone(),
            public_addr: observed,
            local_addr: reg.local_addr,
            protocols: crate::protocols_from_set(
                crate::list_has_protocol(&reg.protocols, crate::Protocol::TCP),
                crate::list_has_protocol(&reg.protocols, crate::Protocol::UDP),
            ),
        };
        proof {
            assert(info.sem() == e);
        }
        let mut i: usize = 0;
        let n = self.entries.len();
        while i < n
            invariant
                n == self.entries@.len(),
                0 <= i <= n,
                self == old(self),
                old(self).wf(),
                encode_utf8(reg.client_id@).len() <= 0xFFFF,
                info.sem() == e,
                e == endpoint_of(reg.sem(), observed),
                forall|j: int| 0 <= j < i ==> self@[j].id != e.id,
            decreases n - i,
        {
            let same = string_eq(&self.entries[i].id, &reg.client_id);
            proof {
                assert(self@[i as int] == self.entries@[i as int].sem());
                assert(self@[i as int].id == self.entries@[i as int].id@);
            }
            if same {
                proof {
                    assert(self@[i as int].id == e.id);
                    assert(has_id(self@, e.id));
                    let k = choose|k: int| 0 <= k < self@.len() && self@[k].id == e.id;
                    assert(self@[k].id == e.id);
                    assert(k == i as int);
                }
                self.entries.set(i, info);
                proof {
                    assert(self@ =~= upsert_seq(old(self)@, e));
                }
                return ;
            }
            proof {
                assert(self@[i as int].id != e.id);
            }
            i += 1;
        }
        proof {
            assert(!has_id(self@, e.id));
        }
        self.entries.push(info);
        proof {
            assert(self@ =~= old(self)@.push(e));
        }
    }

    /// The announced endpoints of every peer other than `requester`, in
    /// table order: a discovery response never includes the requester's
    /// own entry.
    pub fn snapshot_for(&self, requester: &String) -> (v: Vec<PeerInfo>)
        requires
            self.wf(),
        ensures
            v@.map_values(|p: PeerInfo| p.sem()) == self@.filter(
                |e: PeerInfoSem| e.id != requester@,
            ),
            forall|i: int|
                0 <= i < v@.len() ==> (#[trigger] v@[i]).sem().id != requester@ && encode_utf8(
                    v@[i].sem().id,
                ).len() <= 0xFFFF,
    {
        let ghost pred = |e: PeerInfoSem| e.id != requester@;
        let mut v: Vec<PeerInfo> = Vec::new();
        let mut i: usize = 0;
        let n = self.entries.len();
        proof {
            assert(self@.subrange(0, 0).filter(pred) =~= Seq::<PeerInfoSem>::empty());
            assert(v@.map_values(|p: PeerInfo| p.sem()) =~= Seq::<PeerInfoSem>::empty());
        }
        while i < n
            invariant
                n == self.entries@.len(),
                0 <= i <= n,
                self.wf(),
                v@.map_values(|p: PeerInfo| p.sem()) == self@.subrange(0, i as int).filter(pred),
                pred == (|e: PeerInfoSem| e.id != requester@),
                forall|k: int|
                    0 <= k < v@.len() ==> (#[trigger] v@[k]).sem().id != requester@
                        && encode_utf8(v@[k].sem().id).len() <= 0xFFFF,
            decreases n - i,
        {
            let ghost pre = self@.subrange(0, i as int);
            let ghost post = self@.subrange(0, i as int + 1);
            proof {
                assert(post.drop_last() =~= pre);
                assert(post.last() == self@[i as int]);
                reveal_with_fuel(Seq::filter, 2);
            }
            if !string_eq(&self.entries[i].id, requester) {
                let ghost oldv = v@;
                v.push(self.entries[i].clone_info());
                proof {
                    assert(v@.map_values(|p: PeerInfo| p.sem()) =~= oldv.map_values(
                        |p: PeerInfo| p.sem(),
                    ).push(self@[i as int]));
                    assert(post.filter(pred) == pre.filter(pred).push(post.last()));
                }
            } else {
                proof {
                    assert(post.filter(pred) == pre.filter(pred));
                }
            }
            i += 1;
        }
        proof {
            assert(self@.subrange(0, n as int) =~= self@);
        }
        v
    }
}

/// Decode-upsert-respond: the pure step of the server's per-connection
/// handler.  It decodes one registration frame, upserts the table with
/// the observed peer address, and returns the encoded response frames,
/// one per currently known other peer, in table order.  A decode error
/// leaves the table untouched: that connection alone is aborted.
pub fn handle_registration(
    table: &mut RendezvousTable,
    bytes: &[u8],
    observed: Address,
) -> (r: Result<Vec<Vec<u8>>, DecodeError>)
    requires
        old(table).wf(),
    ensures
        final(table).wf(),
        match r {
            Ok(frames) => {
                &&& dec_registration(bytes@) matches Ok(rn) && final(table)@ == upsert_seq(
                    old(table)@,
                    endpoint_of(rn.0, observed),
                ) && ({
                    let sf = final(table)@.filter(|e: PeerInfoSem| e.id != rn.0.client_id);
                    frames@.len() == sf.len() && forall|k: int|
                        0 <= k < sf.len() ==> (#[trigger] frames@[k])@ == enc_peer_info(sf[k])
                })
            },
            Err(e) => *final(table) == *old(table) && dec_registration(bytes@) == Err::<
                (RegistrationSem, int),
                DecodeError,
            >(e),
        },
{
    let (reg, _used) = match decode_registration(bytes) {
        Ok(x) => x,
        Err(e) => {
            return Err(e);
        },
    };
    proof {
        // The decoded identity's UTF-8 bytes are the wire string field,
        // whose length field is 16 bits.
        let b = bytes@;
        let pn = dec_frame(b)->Ok_0;
        let p = pn.0;
        let sl = dec16(p[1], p[2]);
        let sb = p.subrange(3, 3 + sl);
        assert(valid_utf8(sb));
        assert(reg.sem().client_id == decode_utf8(sb));
        decode_utf8_encode_utf8(sb);
        assert(encode_utf8(reg.client_id@).len() == sb.len());
    }
    table.register(&reg, observed);
    let peers = table.snapshot_for(&reg.client_id);
    let ghost sf = table@.filter(|e: PeerInfoSem| e.id != reg.client_id@);
    let mut frames: Vec<Vec<u8>> = Vec::new();
    let mut i: usize = 0;
    let n = peers.len();
    while i < n
        invariant
            n == peers@.len(),
            0 <= i <= n,
            peers@.map_values(|p: PeerInfo| p.sem()) == sf,
            forall|k: int|
                0 <= k < n ==> (#[trigger] peers@[k]).sem().id != reg.client_id@ && encode_utf8(
                    peers@[k].sem().id,
                ).len() <= 0xFFFF,
            frames@.len() == i,
            forall|k: int| 0 <= k < i ==> (#[trigger] frames@[k])@ == enc_peer_info(sf[k]),
        decreases n - i,
    {
        let f = encode_peer_info(&peers[i]);
        proof {
            assert(peers@[i as int].sem() == sf[i as int]);
        }
        frames.push(f);
        i += 1;
    }
    Ok(frames)
}

// ---------------------------------------------------------------------
// Laws of the table.
// ---------------------------------------------------------------------

/// Workhorse: an upsert keeps identities unique, installs exactly the
/// new endpoint under its identity, and leaves every other identity's
/// entry as it was.
pub proof fn lemma_upsert_lookup(s: Seq<PeerInfoSem>, e: PeerInfoSem, id: Seq<char>)
    requires
        unique_ids(s),
    ensures
        unique_ids(upsert_seq(s, e)),
        lookup_seq(upsert_seq(s, e), e.id) == Some(e),
        id != e.id ==> lookup_seq(upsert_seq(s, e), id) == lookup_seq(s, id),
{
    if has_id(s, e.id) {
        let k = choose|i: int| 0 <= i < s.len() && s[i].id == e.id;
        lemma_lookup_update(s, k, e, id);
        lemma_lookup_update(s, k, e, e.id);
    } else {
        assert(s.push(e).drop_last() =~= s);
        assert(forall|i: int| 0 <= i < s.len() ==> s[i].id != e.id);
    }
}

/// Replacing the one entry of an identity is invisible to every lookup
/// but that identity's.
proof fn lemma_lookup_update(s: Seq<PeerInfoSem>, k: int, e: PeerInfoSem, id: Seq<char>)
    requires
        unique_ids(s),
        0 <= k < s.len(),
        s[k].id == e.id,
    ensures
        unique_ids(s.update(k, e)),
        lookup_seq(s.update(k, e), e.id) == Some(e),
        id != e.id ==> lookup_seq(s.update(k, e), id) == lookup_seq(s, id),
    decreases s.len(),
{
    let t = s.update(k, e);
    assert(t.len() == s.len());
    if k == s.len() - 1 {
        assert(t.last() == e);
        assert(t.drop_last() =~= s.drop_last());
    } else {
        assert(t.last() == s.last());
        assert(t.drop_last() =~= s.drop_last().update(k, e));
        assert(s.last().id != e.id);
        assert(unique_ids(s.drop_last()));
        lemma_lookup_update(s.drop_last(), k, e, id);
    }
}

/// Law: two registrations from the same identity leave exactly one
/// entry for that identity, and it reflects the second registration;
/// every other identity's entry is untouched.
pub proof fn lemma_last_write_wins(
    s: Seq<PeerInfoSem>,
    e1: PeerInfoSem,
    e2: PeerInfoSem,
    id: Seq<char>,
)
    requires
        unique_ids(s),
        e1.id == e2.id,
    ensures
        unique_ids(upsert_seq(upsert_seq(s, e1), e2)),
        lookup_seq(upsert_seq(upsert_seq(s, e1), e2), e2.id) == Some(e2),
        id != e2.id ==> lookup_seq(upsert_seq(upsert_seq(s, e1), e2), id) == lookup_seq(s, id),
{
    lemma_upsert_lookup(s, e1, id);
    lemma_upsert_lookup(upsert_seq(s, e1), e2, id);
}

/// With unique identities, any entry carrying `id` is the lookup's
/// answer.
proof fn lemma_lookup_unique(s: Seq<PeerInfoSem>, i: int, id: Seq<char>)
    requires
        unique_ids(s),
        0 <= i < s.len(),
        s[i].id == id,
    ensures
        lookup_seq(s, id) == Some(s[i]),
    decreases s.len(),
{
    if i == s.len() - 1 {
    } else {
        assert(s.last().id != id);
        assert(forall|k: int| 0 <= k < s.drop_last().len() ==> s.drop_last()[k] == s[k]);
        lemma_lookup_unique(s.drop_last(), i, id);
    }
}

/// The table after a whole sequence of registrations has been served,
/// in the order the server's lock let them through.
pub open spec fn fold_upserts(s: Seq<PeerInfoSem>, es: Seq<PeerInfoSem>) -> Seq<PeerInfoSem>
    decreases es.len(),
{
    if es.len() == 0 {
        s
    } else {
        fold_upserts(upsert_seq(s, es[0]), es.subrange(1, es.len() as int))
    }
}

/// Law: however the lock serializes concurrent registrations of
/// pairwise distinct fresh identities, no update is lost: the final
/// table is the old one with every endpoint appended in service order,
/// identities stay unique, and each identity maps to its own
/// registration's endpoint.
pub proof fn lemma_no_update_lost(s: Seq<PeerInfoSem>, es: Seq<PeerInfoSem>)
    requires
        unique_ids(s),
        unique_ids(es),
        forall|i: int| 0 <= i < es.len() ==> !has_id(s, (#[trigger] es[i]).id),
    ensures
        fold_upserts(s, es) == s + es,
        unique_ids(fold_upserts(s, es)),
        forall|k: int|
            0 <= k < es.len() ==> lookup_seq(fold_upserts(s, es), (#[trigger] es[k]).id)
                == Some(es[k]),
    decreases es.len(),
{
    if es.len() == 0 {
        assert(s + es =~= s);
    } else {
        let e = es[0];
        let rest = es.subrange(1, es.len() as int);
        assert(!has_id(s, e.id));
        let s1 = s.push(e);
        assert(upsert_seq(s, e) == s1);
        assert(forall|j: int| 0 <= j < s.len() ==> s[j].id != e.id);
        assert(unique_ids(s1));
        assert(forall|i: int| 0 <= i < rest.len() ==> rest[i] == es[i + 1]);
        assert(unique_ids(rest));
        assert forall|i: int| 0 <= i < rest.len() implies !has_id(s1, (#[trigger] rest[i]).id) by {
            assert(rest[i] == es[i + 1]);
            assert(!has_id(s, es[i + 1].id));
            assert(es[0].id != es[i + 1].id);
            assert(forall|j: int| 0 <= j < s1.len() ==> s1[j].id != es[i + 1].id);
        }
        lemma_no_update_lost(s1, rest);
        assert(s1 + rest =~= s + es);
        let t = fold_upserts(s, es);
        assert(t == s + es);
        assert forall|k: int| 0 <= k < es.len() implies lookup_seq(t, (#[trigger] es[k]).id)
            == Some(es[k]) by {
            assert(t[s.len() + k] == es[k]);
            lemma_lookup_unique(t, s.len() as int + k, es[k].id);
        }
    }
}

/// Law: a registration under a fresh identity loses nothing — the new
/// table is the old one with the endpoint appended — and the fresh
/// registrant's discovery response holds exactly the peers registered
/// strictly before it, in order.
pub proof fn lemma_fresh_registration(s: Seq<PeerInfoSem>, e: PeerInfoSem)
    requires
        unique_ids(s),
        !has_id(s, e.id),
    ensures
        upsert_seq(s, e) == s.push(e),
        upsert_seq(s, e).filter(|x: PeerInfoSem| x.id != e.id) == s,
    decreases s.len(),
{
    let pred = |x: PeerInfoSem| x.id != e.id;
    reveal_with_fuel(Seq::<PeerInfoSem>::filter, 2);
    assert(s.push(e).drop_last() =~= s);
    assert(s.push(e).drop_last() == s);
    assert(s.push(e).filter(pred) == s.filter(pred));
    lemma_filter_no_match_identity(s, e.id);
}

/// Filtering out an identity that no entry carries filters out nothing.
proof fn lemma_filter_no_match_identity(s: Seq<PeerInfoSem>, id: Seq<char>)
    requires
        !has_id(s, id),
    ensures
        s.filter(|x: PeerInfoSem| x.id != id) == s,
    decreases s.len(),
{
    let pred = |x: PeerInfoSem| x.id != id;
    reveal_with_fuel(Seq::<PeerInfoSem>::filter, 2);
    if s.len() == 0 {
        assert(s.filter(pred) =~= s);
    } else {
        assert(forall|i: int| 0 <= i < s.drop_last().len() ==> s.drop_last()[i] == s[i]);
        assert(!has_id(s.drop_last(), id));
        lemma_filter_no_match_identity(s.drop_last(), id);
        assert(pred(s.last()));
        assert(s.filter(pred) == s.drop_last().filter(pred).push(s.last()));
        assert(s.drop_last().push(s.last()) =~= s);
    }
}

/// Byte-for-byte string comparison.
pub(crate) fn string_eq(a: &String, b: &String) -> (r: bool)
    ensures
        r == (a@ == b@),
{
    let ab = a.as_str().as_bytes();
    let bb = b.as_str().as_bytes();
    if ab.len() != bb.len() {
        proof {
            if a@ == b@ {
                assert(encode_utf8(a@) == encode_utf8(b@));
            }
        }
        return false;
    }
    let n = ab.len();
    let mut i: usize = 0;
    while i < n
        invariant
            n == ab@.len() == bb@.len(),
            0 <= i <= n,
            ab@ == encode_utf8(a@),
            bb@ == encode_utf8(b@),
            forall|j: int| 0 <= j < i ==> ab@[j] == bb@[j],
        decreases n - i,
    {
        if *vstd::slice::slice_index_get(ab, i) != *vstd::slice::slice_index_get(bb, i) {
            proof {
                if a@ == b@ {
                    assert(encode_utf8(a@) == encode_utf8(b@));
                    assert(ab@[i as int] == bb@[i as int]);
                }
            }
            return false;
        }
        i += 1;
    }
    proof {
        assert(ab@ =~= bb@);
        vstd::utf8::encode_utf8_decode_utf8(a@);
        vstd::utf8::encode_utf8_decode_utf8(b@);
    }
    true
}

impl PeerInfo {
    /// A field-for-field copy.
    pub fn clone_info(&self) -> (r: PeerInfo)
        ensures
            r.sem() == self.sem(),
            r.protocols@ == self.protocols@,
            r.id@ == self.id@,
            r.public_addr == self.public_addr,
            r.local_addr == self.local_addr,
    {
        let mut protocols: Vec<crate::Protocol> = Vec::new();
        let mut i: usize = 0;
        let n = self.protocols.len();
        while i < n
            invariant
                n == self.protocols@.len(),
                0 <= i <= n,
                protocols@ == self.protocols@.subrange(0, i as int),
            decreases n - i,
        {
            protocols.push(self.protocols[i]);
            proof {
                assert(protocols@ =~= self.protocols@.subrange(0, i as int + 1));
            }
            i += 1;
        }
        proof {
            assert(protocols@ =~= self.protocols@);
        }
        PeerInfo {
            id: clone_string(&self.id),
            public_addr: self.public_addr,
            local_addr: self.local_addr,
            protocols,
        }
    }
}

/// A copy of a string with the same characters.
fn clone_string(s: &String) -> (r: String)
    ensures
        r@ == s@,
{
    s.as_str().to_owned()
}

} // verus!
