//! Clients that have sent packets lately.
use crate::addr::SocketAddr;
use crate::time::{Duration, Instant};
use crate::vec_map;
use crate::vec_map::VecMap;
use vstd::prelude::*;

verus! {

/// A client that has sent packets.
#[derive(Debug, Clone, Copy, PartialEq, Eq)]
pub struct UdpSession {
    /// Address of the client.
    pub client_addr: SocketAddr,
    /// Last packet of the client.
    pub last_activity: Instant,
    /// Sequence number.
    pub sequence: u64,
    /// Socket on which the first packet came in.
    pub server_socket: Option<usize>,
}

impl UdpSession {
    /// More time than `timeout` has passed since the last packet.
    pub open spec fn expired(self, now: Instant, timeout: Duration) -> bool {
        now.since(self.last_activity) > timeout.nanos
    }

    /// Creates a session.
    pub fn new(client_addr: SocketAddr, now: Instant) -> (session: UdpSession)
        ensures
            session == (UdpSession {
                client_addr,
                last_activity: now,
                sequence: 0,
                server_socket: None,
            }),
    {
        UdpSession { client_addr, last_activity: now, sequence: 0, server_socket: None }
    }

    /// Creates a session of a client whose packets come in on a socket.
    pub fn new_with_socket(client_addr: SocketAddr, server_socket: usize, now: Instant) -> (session:
        UdpSession)
        ensures
            session == (UdpSession {
                client_addr,
                last_activity: now,
                sequence: 0,
                server_socket: Some(server_socket),
            }),
    {
        UdpSession {
            client_addr,
            last_activity: now,
            sequence: 0,
            server_socket: Some(server_socket),
        }
    }

    /// Takes note of a packet.
    pub fn update_activity(&mut self, now: Instant)
        ensures
            *final(self) == (UdpSession { last_activity: now, ..*old(self) }),
    {
        self.last_activity = now;
    }

    /// Returns whether more time than `timeout` has passed since the last
    /// packet.
    pub fn is_expired(&self, now: Instant, timeout: Duration) -> (r: bool)
        ensures
            r == self.expired(now, timeout),
    {
        now.duration_since(self.last_activity).nanos > timeout.nanos
    }
}

/// All sessions, by client address.
#[derive(Debug, Clone)]
pub struct SessionTable {
    sessions: VecMap<SocketAddr, UdpSession>,
}

/// The sessions after a packet of a client: the session is marked as used, or
/// created.
pub open spec fn touched(
    sessions: Seq<(SocketAddr, UdpSession)>,
    client: SocketAddr,
    socket: Option<usize>,
    now: Instant,
) -> Seq<(SocketAddr, UdpSession)> {
    match vec_map::value(sessions, client) {
        Some(session) => vec_map::with(
            sessions,
            client,
            UdpSession { last_activity: now, ..session },
        ),
        None => vec_map::with(
            sessions,
            client,
            UdpSession {
                client_addr: client,
                last_activity: now,
                sequence: 0,
                server_socket: socket,
            },
        ),
    }
}

/// The sessions that have not expired, in their order.
pub open spec fn unexpired(
    sessions: Seq<(SocketAddr, UdpSession)>,
    now: Instant,
    timeout: Duration,
) -> Seq<(SocketAddr, UdpSession)>
    decreases sessions.len(),
{
    if sessions.len() == 0 {
        Seq::empty()
    } else {
        let front = unexpired(sessions.drop_last(), now, timeout);
        if sessions.last().1.expired(now, timeout) {
            front
        } else {
            front.push(sessions.last())
        }
    }
}

proof fn unexpired_members(
    sessions: Seq<(SocketAddr, UdpSession)>,
    now: Instant,
    timeout: Duration,
)
    requires
        vec_map::distinct(sessions),
    ensures
        vec_map::distinct(unexpired(sessions, now, timeout)),
        unexpired(sessions, now, timeout).len() <= sessions.len(),
        forall|i: int|
            0 <= i < unexpired(sessions, now, timeout).len() ==> sessions.contains(
                #[trigger] unexpired(sessions, now, timeout)[i],
            ) && !unexpired(sessions, now, timeout)[i].1.expired(now, timeout),
    decreases sessions.len(),
{
    if sessions.len() > 0 {
        let rest = sessions.drop_last();
        let front = unexpired(rest, now, timeout);
        let all = unexpired(sessions, now, timeout);
        unexpired_members(rest, now, timeout);
        assert forall|i: int| 0 <= i < front.len() implies sessions.contains(
            #[trigger] front[i],
        ) by {
            assert(rest.contains(front[i]));
            let j = choose|j: int| 0 <= j < rest.len() && rest[j] == front[i];
            assert(sessions[j] == front[i]);
        }
        assert(sessions[sessions.len() - 1] == sessions.last());
        assert forall|i: int| 0 <= i < all.len() implies sessions.contains(#[trigger] all[i])
            && !all[i].1.expired(now, timeout) by {
            if i < front.len() {
                assert(all[i] == front[i]);
            }
        }
        assert forall|i: int, j: int| 0 <= i < j < all.len() implies (#[trigger] all[i]).0 != (
        #[trigger] all[j]).0 by {
            if j < front.len() {
                assert(front[i].0 != front[j].0);
            } else {
                assert(rest.contains(front[i]));
                let k = choose|k: int| 0 <= k < rest.len() && rest[k] == front[i];
                assert(sessions[k].0 != sessions[sessions.len() - 1].0);
            }
        }
    }
}

/// A client has a session after cleaning up exactly if it had one that had not
/// expired, and that session is unchanged.
pub proof fn cleanup_keeps_live_sessions(
    sessions: Seq<(SocketAddr, UdpSession)>,
    now: Instant,
    timeout: Duration,
    client: SocketAddr,
)
    requires
        vec_map::distinct(sessions),
    ensures
        vec_map::value(unexpired(sessions, now, timeout), client) == (match vec_map::value(
            sessions,
            client,
        ) {
            Some(session) => if session.expired(now, timeout) {
                None
            } else {
                Some(session)
            },
            None => None,
        }),
    decreases sessions.len(),
{
    vec_map::place_is_first(sessions, client);
    let all = unexpired(sessions, now, timeout);
    vec_map::place_is_first(all, client);
    unexpired_members(sessions, now, timeout);
    if sessions.len() > 0 {
        let rest = sessions.drop_last();
        let front = unexpired(rest, now, timeout);
        cleanup_keeps_live_sessions(rest, now, timeout, client);
        vec_map::place_is_first(rest, client);
        vec_map::place_is_first(front, client);
        if vec_map::has(rest, client) {
            let p = vec_map::place(rest, client);
            assert(sessions[p] == rest[p]);
            vec_map::place_found(sessions, client, p);
            if vec_map::has(front, client) {
                let q = vec_map::place(front, client);
                assert(all[q] == front[q]);
                vec_map::place_found(all, client, q);
            } else {
                assert(sessions[p].0 != sessions[sessions.len() - 1].0);
                vec_map::place_found(all, client, all.len() as int);
            }
        } else {
            if sessions.last().0 == client {
                vec_map::place_found(sessions, client, sessions.len() - 1);
                if all.len() > front.len() {
                    assert forall|j: int| 0 <= j < front.len() implies (#[trigger] all[j]).0
                        != client by {
                        assert(all[j] == front[j]);
                    }
                    vec_map::place_found(all, client, all.len() - 1);
                }
            } else {
                assert forall|j: int| 0 <= j < sessions.len() implies (#[trigger] sessions[j]).0
                    != client by {
                    if j < rest.len() {
                        assert(sessions[j] == rest[j]);
                    }
                }
                vec_map::place_found(sessions, client, sessions.len() as int);
                assert forall|j: int| 0 <= j < all.len() implies (#[trigger] all[j]).0
                    != client by {
                    if j < front.len() {
                        assert(all[j] == front[j]);
                    }
                }
                vec_map::place_found(all, client, all.len() as int);
            }
        }
    }
}

/// No client has two sessions.
pub proof fn entries_are_distinct(table: &SessionTable)
    requires
        table.wf(),
    ensures
        vec_map::distinct(table.entries()),
{
}

impl SessionTable {
    /// The sessions, in the order in which they were created.
    pub closed spec fn entries(&self) -> Seq<(SocketAddr, UdpSession)> {
        self.sessions@
    }

    /// No client has two sessions.
    pub closed spec fn wf(&self) -> bool {
        self.sessions.wf()
    }

    /// Creates a table without sessions.
    pub fn new() -> (table: SessionTable)
        ensures
            table.wf(),
            table.entries() == Seq::<(SocketAddr, UdpSession)>::empty(),
    {
        SessionTable { sessions: VecMap::new() }
    }

    /// Returns the number of sessions.
    pub fn len(&self) -> (n: usize)
        ensures
            n == self.entries().len(),
    {
        self.sessions.len()
    }

    /// Takes note of a packet of a client. Returns whether the client is new.
    pub fn touch(&mut self, client: SocketAddr, socket: Option<usize>, now: Instant) -> (new: bool)
        requires
            old(self).wf(),
        ensures
            final(self).wf(),
            new == !vec_map::has(old(self).entries(), client),
            final(self).entries() == touched(old(self).entries(), client, socket, now),
    {
        proof {
            vec_map::place_is_first(self.sessions@, client);
        }
        let i: usize = self.sessions.position(&client);
        if i < self.sessions.len() {
            let ghost before = self.sessions@;
            proof {
                vec_map::with_stores(
                    before,
                    client,
                    UdpSession { last_activity: now, ..before[i as int].1 },
                );
            }
            let session = self.sessions.value_at_mut(i);
            session.update_activity(now);
            assert(self.sessions@ =~= touched(before, client, socket, now));
            false
        } else {
            let session = match socket {
                Some(socket) => UdpSession::new_with_socket(client, socket, now),
                None => UdpSession::new(client, now),
            };
            self.sessions.insert(client, session);
            true
        }
    }

    /// Drops expired sessions. Returns how many there were.
    pub fn cleanup(&mut self, now: Instant, timeout: Duration) -> (dropped: usize)
        requires
            old(self).wf(),
        ensures
            final(self).wf(),
            final(self).entries() == unexpired(old(self).entries(), now, timeout),
            dropped + final(self).entries().len() == old(self).entries().len(),
    {
        let mut kept: VecMap<SocketAddr, UdpSession> = VecMap::new();
        let n: usize = self.sessions.len();
        let mut i: usize = 0;
        let ghost all = self.sessions@;
        assert(all.take(0) =~= Seq::empty());
        while i < n
            invariant
                i <= n,
                n == all.len(),
                all == self.sessions@,
                self.sessions@ == old(self).sessions@,
                vec_map::distinct(all),
                kept.wf(),
                kept@ == unexpired(all.take(i as int), now, timeout),
                kept@.len() <= i,
            decreases n - i,
        {
            let session = *self.sessions.value_at(i);
            let client = *self.sessions.key_at(i);
            proof {
                assert(all.take(i + 1).drop_last() =~= all.take(i as int));
                unexpired_members(all.take(i as int), now, timeout);
                vec_map::place_is_first(kept@, client);
                if vec_map::has(kept@, client) {
                    let p = vec_map::place(kept@, client);
                    assert(all.take(i as int).contains(kept@[p]));
                    let k = choose|k: int| 0 <= k < i && all.take(i as int)[k] == kept@[p];
                    assert(all[k].0 == all[i as int].0);
                }
            }
            if !session.is_expired(now, timeout) {
                kept.insert(client, session);
            }
            i = i + 1;
        }
        assert(all.take(n as int) =~= all);
        let dropped: usize = n - kept.len();
        self.sessions = kept;
        dropped
    }

    /// Returns the clients to which a response goes: all of them.
    pub fn clients(&self) -> (clients: Vec<SocketAddr>)
        ensures
            clients@ == self.entries().map_values(|e: (SocketAddr, UdpSession)| e.0),
    {
        let mut clients: Vec<SocketAddr> = Vec::new();
        let n: usize = self.sessions.len();
        let mut i: usize = 0;
        while i < n
            invariant
                i <= n,
                n == self.sessions@.len(),
                clients@.len() == i,
                forall|j: int| 0 <= j < i ==> #[trigger] clients@[j] == self.sessions@[j].0,
            decreases n - i,
        {
            clients.push(*self.sessions.key_at(i));
            i = i + 1;
        }
        assert(clients@ =~= self.entries().map_values(|e: (SocketAddr, UdpSession)| e.0));
        clients
    }
}

} // verus!
