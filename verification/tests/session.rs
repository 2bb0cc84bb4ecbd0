use rendezvous_relay::establish::Transport;
use rendezvous_relay::session::{PeerSession, SessionMap};

fn session(id: &str, transport: Transport, handle: u64) -> PeerSession {
    PeerSession { peer_id: String::from(id), transport, handle }
}

#[test]
fn sessions_are_found_by_identity() {
    let mut map = SessionMap::new();
    assert_eq!(map.get(&String::from("alice")), None);
    map.insert(session("alice", Transport::Udp, 1));
    map.insert(session("bob", Transport::Tcp, 2));
    assert_eq!(map.get(&String::from("alice")), Some((Transport::Udp, 1)));
    assert_eq!(map.get(&String::from("bob")), Some((Transport::Tcp, 2)));
    assert_eq!(map.get(&String::from("carol")), None);
}

#[test]
fn reestablishing_replaces_the_old_session() {
    let mut map = SessionMap::new();
    map.insert(session("alice", Transport::Udp, 1));
    map.insert(session("alice", Transport::Tcp, 7));
    assert_eq!(map.get(&String::from("alice")), Some((Transport::Tcp, 7)));
}
