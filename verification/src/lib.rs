//! Peer-to-peer rendezvous and NAT-traversal relay, verified core.
//!
//! A central rendezvous server tracks peer identities and their observed
//! endpoints; clients register, discover peers, race a UDP hole punch
//! against a TCP simultaneous open, and relay local connections over the
//! established session.  This crate holds the protocol logic: the wire
//! codec, the rendezvous table, the establishment state machine and the
//! tunnel-relay state machine.  Socket I/O, TLS termination and argument
//! parsing live outside it and hand the core plain values.
//!
//! Addresses are modeled as IPv4 — four octets and a port, the form the
//! wire format carries — as a design bound: the boundary rejects peers
//! of other address families rather than announce an endpoint the wire
//! format cannot express.

use vstd::prelude::*;

pub mod codec;
pub mod establish;
pub mod relay;
pub mod session;
pub mod table;

verus! {

/// Transport protocols a peer offers for direct connections.
#[derive(Clone, Copy, Debug, PartialEq, Eq, Structural)]
pub enum Protocol {
    TCP,
    UDP,
}

/// NAT behaviour classes relevant to the traversal strategy.
#[derive(Clone, Copy, Debug, PartialEq, Eq, Structural)]
pub enum NatType {
    FullCone,
    RestrictedCone,
    PortRestrictedCone,
    Symmetric,
    CGNat,
}

/// An IPv4 socket address held as plain values: four octets and a port.
/// The one address family this design supports.
#[derive(Clone, Copy, Debug, PartialEq, Eq, Structural)]
pub struct Address {
    pub o1: u8,
    pub o2: u8,
    pub o3: u8,
    pub o4: u8,
    pub port: u16,
}

impl Address {
    /// Builds the address `o1.o2.o3.o4:port`.
    pub fn new(o1: u8, o2: u8, o3: u8, o4: u8, port: u16) -> (a: Address)
        ensures
            a == (Address { o1, o2, o3, o4, port }),
    {
        Address { o1, o2, o3, o4, port }
    }
}

/// What the server announces about a registered peer.
#[derive(Clone, Debug)]
pub struct PeerInfo {
    pub id: String,
    pub public_addr: Address,
    pub local_addr: Address,
    pub protocols: Vec<Protocol>,
}

/// What a client sends to the rendezvous server.  The claimed public
/// address is never trusted: the server substitutes the observed one.
#[derive(Clone, Debug)]
pub struct Registration {
    pub client_id: String,
    pub local_addr: Address,
    pub public_addr: Option<Address>,
    pub protocols: Vec<Protocol>,
}

/// Mathematical content of a `PeerInfo`: the identity as a character
/// sequence and the protocol list as the set it denotes.
pub ghost struct PeerInfoSem {
    pub id: Seq<char>,
    pub public_addr: Address,
    pub local_addr: Address,
    pub tcp: bool,
    pub udp: bool,
}

/// Mathematical content of a `Registration`.
pub ghost struct RegistrationSem {
    pub client_id: Seq<char>,
    pub local_addr: Address,
    pub public_addr: Option<Address>,
    pub tcp: bool,
    pub udp: bool,
}

impl PeerInfo {
    /// The semantic content: protocol lists that denote the same set are
    /// identified.
    pub open spec fn sem(self) -> PeerInfoSem {
        PeerInfoSem {
            id: self.id@,
            public_addr: self.public_addr,
            local_addr: self.local_addr,
            tcp: self.protocols@.contains(Protocol::TCP),
            udp: self.protocols@.contains(Protocol::UDP),
        }
    }
}

impl Registration {
    /// The semantic content: protocol lists that denote the same set are
    /// identified.
    pub open spec fn sem(self) -> RegistrationSem {
        RegistrationSem {
            client_id: self.client_id@,
            local_addr: self.local_addr,
            public_addr: self.public_addr,
            tcp: self.protocols@.contains(Protocol::TCP),
            udp: self.protocols@.contains(Protocol::UDP),
        }
    }
}

/// The canonical protocol list for a given protocol set: TCP first,
/// then UDP, each at most once.
pub open spec fn canonical_protocols(tcp: bool, udp: bool) -> Seq<Protocol> {
    let t = if tcp { seq![Protocol::TCP] } else { Seq::<Protocol>::empty() };
    let u = if udp { seq![Protocol::UDP] } else { Seq::<Protocol>::empty() };
    t + u
}

/// Builds the canonical protocol list for a protocol set.
pub fn protocols_from_set(tcp: bool, udp: bool) -> (v: Vec<Protocol>)
    ensures
        v@ == canonical_protocols(tcp, udp),
        v@.contains(Protocol::TCP) <==> tcp,
        v@.contains(Protocol::UDP) <==> udp,
{
    let mut v: Vec<Protocol> = Vec::new();
    if tcp {
        v.push(Protocol::TCP);
    }
    if udp {
        v.push(Protocol::UDP);
    }
    proof {
        assert(v@ =~= canonical_protocols(tcp, udp));
        lemma_canonical_protocols_set(tcp, udp);
    }
    v
}

/// The canonical protocol list denotes exactly the set it was built from.
pub proof fn lemma_canonical_protocols_set(tcp: bool, udp: bool)
    ensures
        canonical_protocols(tcp, udp).contains(Protocol::TCP) <==> tcp,
        canonical_protocols(tcp, udp).contains(Protocol::UDP) <==> udp,
{
    let s = canonical_protocols(tcp, udp);
    if tcp {
        assert(s[0] == Protocol::TCP);
    }
    if udp {
        assert(s[s.len() - 1] == Protocol::UDP);
    }
    assert forall|i: int| 0 <= i < s.len() implies (s[i] == Protocol::TCP ==> tcp) && (s[i]
        == Protocol::UDP ==> udp) by {}
}

/// Whether a protocol list contains the given protocol.
pub fn list_has_protocol(v: &Vec<Protocol>, p: Protocol) -> (r: bool)
    ensures
        r == v@.contains(p),
{
    let mut i: usize = 0;
    while i < v.len()
        invariant
            0 <= i <= v@.len(),
            forall|j: int| 0 <= j < i ==> v@[j] != p,
        decreases v@.len() - i,
    {
        if v[i] == p {
            return true;
        }
        i += 1;
    }
    false
}

/// Reasons a frame fails to decode.  `UnknownField` marks a reserved
/// message tag: the frame is well delimited and a reader skips it for
/// forward compatibility, so the error is non-fatal.
#[derive(Clone, Copy, Debug, PartialEq, Eq, Structural)]
pub enum DecodeError {
    Truncated,
    Malformed,
    UnknownField,
}

/// Reasons connection establishment fails.
#[derive(Clone, Copy, Debug, PartialEq, Eq, Structural)]
pub enum EstablishmentError {
    HolePunchTimeout,
    SimultaneousOpenFailed,
    PeerUnreachable,
}

} // verus!
