//! The client's local session map: remote identity to established
//! session.
//!
//! A `PeerSession` wraps exactly one transport; the socket itself lives
//! with the caller, which hands the library an opaque handle for it.
//! Re-establishing to the same identity replaces the old session
//! (last write wins), as a fresh race's winner supersedes a dead one.

use vstd::prelude::*;
use crate::establish::Transport;
use crate::table::string_eq;

verus! {

/// An established session with one peer: exactly one transport, and
/// the caller's handle for the underlying socket.
#[derive(Debug)]
pub struct PeerSession {
    pub peer_id: String,
    pub transport: Transport,
    pub handle: u64,
}

/// Ghost content of a session.
pub ghost struct SessionSem {
    pub id: Seq<char>,
    pub transport: Transport,
    pub handle: u64,
}

impl PeerSession {
    /// The session's mathematical content.
    pub open spec fn sem(&self) -> SessionSem {
        SessionSem { id: self.peer_id@, transport: self.transport, handle: self.handle }
    }
}

/// At most one session per identity.
pub open spec fn unique_session_ids(s: Seq<SessionSem>) -> bool {
    forall|i: int, j: int| 0 <= i < j < s.len() ==> s[i].id != s[j].id
}

/// The session of `id` in `s`, if any.
pub open spec fn session_lookup(s: Seq<SessionSem>, id: Seq<char>) -> Option<SessionSem>
    decreases s.len(),
{
    if s.len() == 0 {
        None
    } else if s.last().id == id {
        Some(s.last())
    } else {
        session_lookup(s.drop_last(), id)
    }
}

/// The sessions of `s`, with `e` replacing the session of its identity,
/// or appended if the identity is new.
pub open spec fn session_upsert(s: Seq<SessionSem>, e: SessionSem) -> Seq<SessionSem> {
    if exists|i: int| 0 <= i < s.len() && s[i].id == e.id {
        s.update(choose|i: int| 0 <= i < s.len() && s[i].id == e.id, e)
    } else {
        s.push(e)
    }
}

/// With unique identities, any entry carrying `id` is the lookup's
/// answer, and an absent identity looks up to nothing.
pub proof fn lemma_session_lookup_unique(s: Seq<SessionSem>, i: int, id: Seq<char>)
    requires
        unique_session_ids(s),
        0 <= i < s.len(),
        s[i].id == id,
    ensures
        session_lookup(s, id) == Some(s[i]),
    decreases s.len(),
{
    if i == s.len() - 1 {
    } else {
        assert(s.last().id != id);
        assert(forall|k: int| 0 <= k < s.drop_last().len() ==> s.drop_last()[k] == s[k]);
        lemma_session_lookup_unique(s.drop_last(), i, id);
    }
}

/// An identity no entry carries looks up to nothing.
pub proof fn lemma_session_lookup_none(s: Seq<SessionSem>, id: Seq<char>)
    requires
        forall|i: int| 0 <= i < s.len() ==> (#[trigger] s[i]).id != id,
    ensures
        session_lookup(s, id) is None,
    decreases s.len(),
{
    if s.len() > 0 {
        assert(forall|k: int| 0 <= k < s.drop_last().len() ==> s.drop_last()[k] == s[k]);
        lemma_session_lookup_none(s.drop_last(), id);
    }
}

/// Remote identity to established session; exclusively owned by the
/// client that established the sessions.
#[derive(Debug)]
pub struct SessionMap {
    sessions: Vec<PeerSession>,
}

impl SessionMap {
    /// The map's content.
    pub closed spec fn view(&self) -> Seq<SessionSem> {
        self.sessions@.map_values(|p: PeerSession| p.sem())
    }

    /// Identities are unique.
    pub open spec fn wf(&self) -> bool {
        unique_session_ids(self@)
    }

    /// An empty session map.
    pub fn new() -> (m: SessionMap)
        ensures
            m.wf(),
            m@ == Seq::<SessionSem>::empty(),
    {
        let m = SessionMap { sessions: Vec::new() };
        proof {
            assert(m@ =~= Seq::<SessionSem>::empty());
        }
        m
    }

    /// Registers an established session under its peer's identity:
    /// last write wins, other identities untouched.
    pub fn insert(&mut self, session: PeerSession)
        requires
            old(self).wf(),
        ensures
            final(self).wf(),
            final(self)@ == session_upsert(old(self)@, session.sem()),
    {
        let ghost e = session.sem();
        let mut i: usize = 0;
        let n = self.sessions.len();
        while i < n
            invariant
                n == self.sessions@.len(),
                0 <= i <= n,
                self == old(self),
                old(self).wf(),
                e == session.sem(),
                forall|j: int| 0 <= j < i ==> self@[j].id != e.id,
            decreases n - i,
        {
            let same = string_eq(&self.sessions[i].peer_id, &session.peer_id);
            proof {
                assert(self@[i as int] == self.sessions@[i as int].sem());
            }
            if same {
                proof {
                    let k = choose|k: int| 0 <= k < self@.len() && self@[k].id == e.id;
                    assert(self@[k].id == e.id);
                    assert(k == i as int);
                }
                self.sessions.set(i, session);
                proof {
                    assert(self@ =~= session_upsert(old(self)@, e));
                }
                return ;
            }
            i += 1;
        }
        self.sessions.push(session);
        proof {
            assert(self@ =~= old(self)@.push(e));
        }
    }

    /// The established session for `id`: its transport and the caller's
    /// socket handle, or nothing when no session was established.
    pub fn get(&self, id: &String) -> (r: Option<(Transport, u64)>)
        requires
            self.wf(),
        ensures
            r == (match session_lookup(self@, id@) {
                Some(s) => Some((s.transport, s.handle)),
                None => None,
            }),
    {
        let n = self.sessions.len();
        let mut i: usize = 0;
        while i < n
            invariant
                n == self.sessions@.len(),
                0 <= i <= n,
                self.wf(),
                forall|j: int| 0 <= j < i ==> self@[j].id != id@,
            decreases n - i,
        {
            let same = string_eq(&self.sessions[i].peer_id, id);
            proof {
                assert(self@[i as int] == self.sessions@[i as int].sem());
            }
            if same {
                proof {
                    lemma_session_lookup_unique(self@, i as int, id@);
                }
                return Some((self.sessions[i].transport, self.sessions[i].handle));
            }
            i += 1;
        }
        proof {
            lemma_session_lookup_none(self@, id@);
        }
        None
    }
}

} // verus!
