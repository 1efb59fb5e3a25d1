//! Sessions of players with the assistant.
//!
//! A player's connection gets a session number when it first uses the assistant,
//! and keeps it until the player leaves. The assistant keeps a conversation per
//! session, and its replies are routed back by session.

use std::collections::HashMap;

use vstd::prelude::*;

verus! {

broadcast use vstd::std_specs::hash::group_hash_axioms;

/// A player's connection to the server.
#[derive(Clone, Copy, PartialEq, Eq, Structural, Debug, Hash)]
pub struct ConnectionId {
    pub raw: u64,
}

/// Which session each connection has, and the highest number that was ever given
/// out.
pub ghost struct Sessions {
    pub of: Map<u64, u64>,
    pub next: u64,
}

impl Sessions {
    /// The sessions once `connection` was seen: it keeps the session it has, or
    /// gets the next number.
    pub open spec fn assigned(self, connection: ConnectionId) -> Sessions {
        if self.of.contains_key(connection.raw) {
            self
        } else {
            Sessions {
                of: self.of.insert(connection.raw, (self.next + 1) as u64),
                next: (self.next + 1) as u64,
            }
        }
    }

    /// The sessions once `connection` is gone.
    pub open spec fn without(self, connection: ConnectionId) -> Sessions {
        Sessions { of: self.of.remove(connection.raw), next: self.next }
    }

    /// The session of a connection, if it has one.
    pub open spec fn session(self, connection: ConnectionId) -> Option<u64> {
        if self.of.contains_key(connection.raw) {
            Some(self.of[connection.raw])
        } else {
            None
        }
    }

    /// Whether `session` belongs to `connection`.
    pub open spec fn belongs(self, session: u64, connection: ConnectionId) -> bool {
        self.session(connection) == Some(session)
    }

    /// No two connections share a session, and only numbers up to `next` were given
    /// out, beginning with one.
    pub open spec fn valid(self) -> bool {
        &&& forall|c: u64| #[trigger]
            self.of.contains_key(c) ==> 1 <= self.of[c] <= self.next
        &&& forall|c: u64, d: u64|
            #![trigger self.of.contains_key(c), self.of.contains_key(d)]
            self.of.contains_key(c) && self.of.contains_key(d) && self.of[c] == self.of[d] ==> c
                == d
    }
}

/// Sessions by connection and connections by session.
pub struct SessionMap {
    pub fwd: HashMap<u64, u64>,
    pub rev: HashMap<u64, u64>,
    pub next: u64,
}

impl View for SessionMap {
    type V = Sessions;

    open spec fn view(&self) -> Sessions {
        Sessions { of: self.fwd@, next: self.next }
    }
}

impl SessionMap {
    /// The two maps are each other's inverse.
    pub open spec fn wf(&self) -> bool {
        &&& self@.valid()
        &&& forall|c: u64| #[trigger]
            self.fwd@.contains_key(c) ==> self.rev@.contains_key(self.fwd@[c])
                && self.rev@[self.fwd@[c]] == c
        &&& forall|s: u64| #[trigger]
            self.rev@.contains_key(s) ==> self.fwd@.contains_key(self.rev@[s])
                && self.fwd@[self.rev@[s]] == s
    }

    /// No sessions yet.
    pub fn new() -> (r: Self)
        ensures
            r.wf(),
            r@.of == Map::<u64, u64>::empty(),
            r@.next == 0,
    {
        SessionMap { fwd: HashMap::new(), rev: HashMap::new(), next: 0 }
    }

    /// The session of `connection`, a new one where it has none yet.
    pub fn assign(&mut self, connection: ConnectionId) -> (r: u64)
        requires
            old(self).wf(),
            old(self)@.session(connection) is Some || old(self)@.next < u64::MAX,
        ensures
            final(self).wf(),
            final(self)@ == old(self)@.assigned(connection),
            final(self)@.belongs(r, connection),
    {
        if let Some(id) = self.fwd.get(&connection.raw) {
            return *id;
        }
        self.next = self.next + 1;
        let id: u64 = self.next;
        self.fwd.insert(connection.raw, id);
        self.rev.insert(id, connection.raw);
        id
    }

    /// The connection that `session` belongs to.
    pub fn resolve(&self, session: u64) -> (r: Option<ConnectionId>)
        requires
            self.wf(),
        ensures
            match r {
                Some(connection) => self@.belongs(session, connection),
                None => forall|c: ConnectionId| !(#[trigger] self@.belongs(session, c)),
            },
    {
        match self.rev.get(&session) {
            Some(raw) => Some(ConnectionId { raw: *raw }),
            None => None,
        }
    }

    /// Forgets the session of `connection` and returns its number.
    pub fn remove(&mut self, connection: ConnectionId) -> (r: Option<u64>)
        requires
            old(self).wf(),
        ensures
            final(self).wf(),
            final(self)@ == old(self)@.without(connection),
            r == old(self)@.session(connection),
    {
        let id: u64 = match self.fwd.remove(&connection.raw) {
            Some(id) => id,
            None => {
                assert(self.fwd@ =~= old(self).fwd@);
                assert(self.fwd@ =~= old(self).fwd@.remove(connection.raw));
                return None;
            },
        };
        self.rev.remove(&id);
        Some(id)
    }
}

/// A connection keeps its session, whoever else is given one in the meantime.
pub proof fn law_session_is_stable(s: Sessions, connection: ConnectionId, other: ConnectionId)
    requires
        s.valid(),
        s.next < u64::MAX,
        s.session(connection) is Some,
    ensures
        s.assigned(connection) == s,
        s.assigned(other).session(connection) == s.session(connection),
        other != connection ==> s.without(other).session(connection) == s.session(connection),
{
}

/// A session leads back to the one connection that it was given to.
pub proof fn law_replies_are_routed_back(
    s: Sessions,
    connection: ConnectionId,
    session: u64,
    found: ConnectionId,
)
    requires
        s.valid(),
        s.belongs(session, connection),
        s.belongs(session, found),
    ensures
        found == connection,
{
}

/// A session number is never given out twice: a new session's number is higher
/// than all before, also than those that were freed.
pub proof fn law_sessions_are_not_reused(s: Sessions, connection: ConnectionId, freed: u64)
    requires
        s.valid(),
        s.next < u64::MAX,
        freed <= s.next,
        s.session(connection) is None,
    ensures
        s.assigned(connection).valid(),
        s.assigned(connection).session(connection) == Some((s.next + 1) as u64),
        s.assigned(connection).session(connection) != Some(freed),
        s.assigned(connection).next > s.next,
        s.without(connection).next == s.next,
{
}

/// Once a connection is gone, no session leads to it.
pub proof fn law_gone_connection_has_no_session(s: Sessions, connection: ConnectionId, session: u64)
    requires
        s.valid(),
    ensures
        s.without(connection).valid(),
        !s.without(connection).belongs(session, connection),
{
}

/// Giving a session to one connection, or taking it away, is nobody else's business: every
/// other connection has the session that it had, or still none.
pub proof fn law_one_connection_at_a_time(s: Sessions, connection: ConnectionId, other: ConnectionId)
    requires
        other != connection,
    ensures
        s.assigned(connection).session(other) == s.session(other),
        s.without(connection).session(other) == s.session(other),
        s.assigned(connection).session(connection) is Some,
        s.without(connection).session(connection) is None,
        s.session(connection) is None ==> s.without(connection).of =~= s.of,
{
}

} // verus!
