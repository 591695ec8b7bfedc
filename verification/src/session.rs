//! Session management for the UDP transparent proxy.
use crate::addr::{IpAddr, SocketAddr};
use crate::crc;
use crate::hashing;
use crate::session_tables;
use crate::session_tables::{AddrKey, SessionEntry};
use crate::time::{Duration, Instant};
use crate::wire;
use crate::wire::Cursor;
use dashmap::DashMap;
use std::collections::hash_map::DefaultHasher;
use std::hash::Hasher;
use vstd::prelude::*;
use vstd::slice::slice_subrange;
use vstd::std_specs::hash::DefaultHasherAdditionalSpecFns;

verus! {

/// Session identifier.
pub type SessionId = u32;

/// Session statistics.
#[derive(Debug, Clone, Copy, PartialEq, Eq, Structural)]
pub struct SessionStats {
    /// Total number of sessions ever created.
    pub total_sessions_created: u64,
    /// Currently active sessions.
    pub active_sessions: usize,
}

/// Session information with timestamps.
#[derive(Debug, Clone, Copy, PartialEq, Eq, Structural)]
pub struct SessionInfo {
    /// Unique session identifier.
    pub session_id: SessionId,
    /// Session creation time.
    pub created_at: Instant,
    /// Last activity.
    pub last_used: Instant,
}

impl SessionInfo {
    /// This session as plain numbers.
    pub open spec fn entry(self) -> SessionEntry {
        (self.session_id, self.created_at.nanos, self.last_used.nanos)
    }

    fn to_entry(&self) -> (e: SessionEntry)
        ensures
            e == self.entry(),
    {
        (self.session_id, self.created_at.nanos, self.last_used.nanos)
    }
}

/// The identifier that follows `current`. Zero is never one.
pub open spec fn next_id(current: u32) -> u32 {
    if current == u32::MAX {
        1
    } else {
        (current + 1) as u32
    }
}

/// Keeps track of which client belongs to which session.
#[derive(Debug)]
pub struct SessionManager {
    addr_to_session: DashMap<AddrKey, SessionEntry>,
    session_to_addr: DashMap<u32, AddrKey>,
    session_to_agg_client: DashMap<u32, AddrKey>,
    next_session_id: u32,
    total_sessions_created: u64,
    session_timeout: Duration,
}

impl SessionManager {
    /// The session of each client address.
    pub closed spec fn sessions(&self) -> Map<AddrKey, SessionEntry> {
        session_tables::addr_table(self.addr_to_session)
    }

    /// The client address of each session.
    pub closed spec fn clients(&self) -> Map<u32, AddrKey> {
        session_tables::id_table(self.session_to_addr)
    }

    /// The aggregation client of each session.
    pub closed spec fn agg_clients(&self) -> Map<u32, AddrKey> {
        session_tables::id_table(self.session_to_agg_client)
    }

    /// The identifier that was given out last.
    pub closed spec fn last_id(&self) -> u32 {
        self.next_session_id
    }

    /// How many sessions were created, modulo the number of values of a counter.
    pub closed spec fn created(&self) -> u64 {
        self.total_sessions_created
    }

    /// After how much time without use a session expires.
    pub closed spec fn timeout(&self) -> Duration {
        self.session_timeout
    }

    /// Every client address with a session is the address of that session.
    pub open spec fn paired(&self) -> bool {
        forall|key: AddrKey| #[trigger]
            self.sessions().contains_key(key) ==> self.clients().contains_pair(
                self.sessions()[key].0,
                key,
            )
    }

    /// No session with an address has a higher identifier than the one given out
    /// last.
    pub open spec fn numbered(&self) -> bool {
        forall|id: u32| #[trigger] self.clients().contains_key(id) ==> id <= self.last_id()
    }

    /// Nothing but the three tables may differ.
    pub open spec fn same_settings(&self, other: SessionManager) -> bool {
        &&& self.last_id() == other.last_id()
        &&& self.created() == other.created()
        &&& self.timeout() == other.timeout()
    }

    /// There are no sessions, and there were none before.
    pub open spec fn is_new(&self) -> bool {
        &&& self.sessions() == Map::<AddrKey, SessionEntry>::empty()
        &&& self.clients() == Map::<u32, AddrKey>::empty()
        &&& self.agg_clients() == Map::<u32, AddrKey>::empty()
        &&& self.last_id() == 1
        &&& self.created() == 0
    }

    /// Creates a session manager without sessions.
    pub fn new(session_timeout: Duration) -> (m: SessionManager)
        ensures
            m.is_new(),
            m.timeout() == session_timeout,
            m.paired(),
            m.numbered(),
    {
        let m = SessionManager {
            addr_to_session: session_tables::new_addr_table(),
            session_to_addr: session_tables::new_id_table(),
            session_to_agg_client: session_tables::new_id_table(),
            next_session_id: 1,
            total_sessions_created: 0,
            session_timeout,
        };
        assert(m.sessions() =~= Map::<AddrKey, SessionEntry>::empty());
        assert(m.clients() =~= Map::<u32, AddrKey>::empty());
        assert(m.agg_clients() =~= Map::<u32, AddrKey>::empty());
        m
    }

    fn allocate_session_id(&mut self) -> (id: SessionId)
        ensures
            id == next_id(old(self).last_id()),
            id != 0,
            *final(self) == (SessionManager { next_session_id: id, ..*old(self) }),
    {
        let id: u32 = if self.next_session_id == u32::MAX {
            1
        } else {
            self.next_session_id + 1
        };
        self.next_session_id = id;
        id
    }

    /// The client has a session, or the next identifier is not in use.
    pub open spec fn can_open(&self, client_addr: SocketAddr) -> bool {
        self.sessions().contains_key(session_tables::key_of(client_addr))
            || !self.clients().contains_key(next_id(self.last_id()))
    }

    /// `after` is this manager once a client has asked for its session at `now`
    /// and got the one named `id`: the session it has, marked as used, or else a
    /// new one under the next identifier.
    pub open spec fn opened(
        &self,
        after: SessionManager,
        client_addr: SocketAddr,
        now: Instant,
        id: SessionId,
    ) -> bool {
        let key = session_tables::key_of(client_addr);
        &&& after.timeout() == self.timeout()
        &&& after.agg_clients() == self.agg_clients()
        &&& if self.sessions().contains_key(key) {
            let entry = self.sessions()[key];
            &&& id == entry.0
            &&& after.sessions() == self.sessions().insert(key, (entry.0, entry.1, now.nanos))
            &&& after.clients() == self.clients()
            &&& after.same_settings(*self)
        } else {
            &&& id == next_id(self.last_id())
            &&& after.sessions() == self.sessions().insert(key, (id, now.nanos, now.nanos))
            &&& after.clients() == self.clients().insert(id, key)
            &&& after.last_id() == id
            &&& after.created() == (self.created() + 1) % 0x1_0000_0000_0000_0000
        }
    }

    /// Returns the session of a client address, which is created if there is
    /// none.
    pub fn get_or_create_session(&mut self, client_addr: SocketAddr, now: Instant) -> (id:
        SessionId)
        ensures
            old(self).opened(*final(self), client_addr, now, id),
            old(self).paired() && old(self).can_open(client_addr) ==> final(self).paired()
                && final(self).clients().contains_pair(id, session_tables::key_of(client_addr)),
            old(self).numbered() && old(self).last_id() < u32::MAX ==> final(self).numbered()
                && old(self).can_open(client_addr),
    {
        let key = session_tables::to_key(client_addr);
        match session_tables::get_session(&self.addr_to_session, key) {
            Some(entry) => {
                session_tables::put_session(
                    &mut self.addr_to_session,
                    key,
                    (entry.0, entry.1, now.nanos),
                );
                entry.0
            },
            None => {
                let session_id: u32 = self.allocate_session_id();
                let info = SessionInfo { session_id, created_at: now, last_used: now };
                session_tables::put_session(&mut self.addr_to_session, key, info.to_entry());
                session_tables::put_addr(&mut self.session_to_addr, session_id, key);
                self.total_sessions_created = self.total_sessions_created.wrapping_add(1);
                session_id
            },
        }
    }

    /// Returns the client address of a session.
    pub fn get_client_addr(&self, session_id: SessionId) -> (addr: Option<SocketAddr>)
        ensures
            addr == (if self.clients().contains_key(session_id) {
                Some(session_tables::addr_of(self.clients()[session_id]))
            } else {
                None
            }),
    {
        match session_tables::get_addr(&self.session_to_addr, session_id) {
            Some(key) => Some(session_tables::from_key(key)),
            None => None,
        }
    }

    /// The session that `session_id` names: it has a client address, and that
    /// address has this session.
    pub open spec fn known(&self, session_id: SessionId) -> bool {
        &&& self.clients().contains_key(session_id)
        &&& self.sessions().contains_key(self.clients()[session_id])
        &&& self.sessions()[self.clients()[session_id]].0 == session_id
    }

    /// `after` is this manager once a session has been marked as used at `now`,
    /// if it is known.
    pub open spec fn touched(
        &self,
        after: SessionManager,
        session_id: SessionId,
        now: Instant,
    ) -> bool {
        &&& after.clients() == self.clients()
        &&& after.agg_clients() == self.agg_clients()
        &&& after.same_settings(*self)
        &&& after.sessions() == (if self.known(session_id) {
            let key = self.clients()[session_id];
            let entry = self.sessions()[key];
            self.sessions().insert(key, (entry.0, entry.1, now.nanos))
        } else {
            self.sessions()
        })
    }

    /// Marks a session as used. Returns whether there is such a session.
    pub fn touch_session(&mut self, session_id: SessionId, now: Instant) -> (r: bool)
        ensures
            r == old(self).known(session_id),
            old(self).touched(*final(self), session_id, now),
            old(self).paired() ==> final(self).paired(),
    {
        match session_tables::get_addr(&self.session_to_addr, session_id) {
            Some(key) => match session_tables::get_session(&self.addr_to_session, key) {
                Some(entry) => {
                    if entry.0 == session_id {
                        session_tables::put_session(
                            &mut self.addr_to_session,
                            key,
                            (entry.0, entry.1, now.nanos),
                        );
                        true
                    } else {
                        false
                    }
                },
                None => false,
            },
            None => false,
        }
    }

    /// A session that expires at `now` or before has this identifier.
    pub open spec fn expires(&self, id: u32, now: Instant) -> bool {
        exists|key: AddrKey| #[trigger]
            self.sessions().contains_key(key) && self.sessions()[key].0 == id
                && !session_tables::alive(
                self.sessions()[key],
                now.nanos,
                self.timeout().nanos,
            )
    }

    /// `after` is this manager once sessions that had expired at `now` have been
    /// dropped from all tables.
    pub open spec fn cleaned(&self, after: SessionManager, now: Instant) -> bool {
        &&& after.same_settings(*self)
        &&& forall|key: AddrKey|
            #![trigger after.sessions().contains_key(key)]
            after.sessions().contains_key(key) <==> self.sessions().contains_key(key)
                && session_tables::alive(self.sessions()[key], now.nanos, self.timeout().nanos)
        &&& forall|key: AddrKey|
            after.sessions().contains_key(key) ==> #[trigger] after.sessions()[key]
                == self.sessions()[key]
        &&& cut(self.clients(), after.clients(), |id: u32| self.expires(id, now))
        &&& cut(self.agg_clients(), after.agg_clients(), |id: u32| self.expires(id, now))
    }

    /// Drops expired sessions and returns how many there were.
    pub fn cleanup_expired_sessions(&mut self, now: Instant) -> (count: usize)
        ensures
            old(self).cleaned(*final(self), now),
            count + final(self).sessions().len() == old(self).sessions().len(),
            old(self).paired() ==> final(self).paired(),
    {
        let entries = session_tables::list_sessions(&self.addr_to_session);
        let ghost sessions = self.sessions();
        let ghost timeout = self.session_timeout.nanos;
        let mut count: usize = 0;
        let mut i: usize = 0;
        let ghost mut rest = sessions;
        proof {
            listed_len(entries@, sessions);
        }
        while i < entries.len()
            invariant
                i <= entries@.len(),
                self.same_settings(*old(self)),
                self.sessions() == sessions,
                sessions == old(self).sessions(),
                timeout == self.session_timeout.nanos,
                session_tables::lists(entries@, sessions),
                cut(
                    old(self).clients(),
                    self.clients(),
                    |id: u32| dropped_in(entries@, i as int, id, now.nanos, timeout),
                ),
                cut(
                    old(self).agg_clients(),
                    self.agg_clients(),
                    |id: u32| dropped_in(entries@, i as int, id, now.nanos, timeout),
                ),
                count <= i,
                rest.dom().finite(),
                count + rest.len() == sessions.len(),
                forall|key: AddrKey| #[trigger]
                    rest.contains_key(key) <==> sessions.contains_key(key) && !(exists|j: int|
                        0 <= j < i && (#[trigger] entries@[j]).0 == key && !session_tables::alive(
                            entries@[j].1,
                            now.nanos,
                            timeout,
                        )),
            decreases entries@.len() - i,
        {
            let e = entries[i];
            assert(sessions.contains_pair(entries@[i as int].0, entries@[i as int].1));
            assert(rest.contains_key(e.0));
            if !session_tables::is_alive(e.1, now.nanos, self.session_timeout.nanos) {
                let ghost before = self.clients();
                session_tables::remove_addr(&mut self.session_to_addr, e.1.0);
                session_tables::remove_addr(&mut self.session_to_agg_client, e.1.0);
                count = count + 1;
                proof {
                    rest = rest.remove(e.0);
                    assert(dropped_in(entries@, i + 1, e.1.0, now.nanos, timeout)) by {
                        assert(entries@[i as int].1 == e.1);
                    }
                }
            }
            proof {
                assert forall|id: u32|
                    dropped_in(entries@, i + 1, id, now.nanos, timeout) <==> dropped_in(
                        entries@,
                        i as int,
                        id,
                        now.nanos,
                        timeout,
                    ) || (e.1.0 == id && !session_tables::alive(e.1, now.nanos, timeout)) by {
                    dropped_step(entries@, i as int, id, now.nanos, timeout);
                }
            }
            i = i + 1;
        }
        session_tables::keep_alive_sessions(
            &mut self.addr_to_session,
            now.nanos,
            self.session_timeout.nanos,
        );
        proof {
            assert forall|id: u32|
                dropped_in(entries@, i as int, id, now.nanos, timeout) <==> old(self).expires(
                    id,
                    now,
                ) by {
                dropped_all(entries@, sessions, id, now.nanos, timeout);
            }
            assert forall|key: AddrKey| rest.contains_key(key) <==> self.sessions().contains_key(
                key,
            ) by {
                if sessions.contains_key(key) {
                    let j = choose|j: int|
                        0 <= j < entries@.len() && (#[trigger] entries@[j]).0 == key;
                    assert(sessions.contains_pair(entries@[j].0, entries@[j].1));
                }
            }
            assert(rest.dom() =~= self.sessions().dom());
        }
        count
    }
}

impl SessionManager {
    /// Returns session statistics.
    pub fn stats(&self) -> (stats: SessionStats)
        ensures
            stats.total_sessions_created == self.created(),
            stats.active_sessions == self.clients().len(),
    {
        SessionStats {
            total_sessions_created: self.total_sessions_created,
            active_sessions: session_tables::count_addrs(&self.session_to_addr),
        }
    }

    /// Remembers the aggregation client that responses of a session go to. The
    /// session need not exist.
    pub fn remember_aggregation_client(
        &mut self,
        session_id: SessionId,
        agg_client_addr: SocketAddr,
    ) -> (r: bool)
        ensures
            r,
            final(self).sessions() == old(self).sessions(),
            final(self).clients() == old(self).clients(),
            final(self).agg_clients() == old(self).agg_clients().insert(
                session_id,
                session_tables::key_of(agg_client_addr),
            ),
            final(self).same_settings(*old(self)),
    {
        let key = session_tables::to_key(agg_client_addr);
        session_tables::put_addr(&mut self.session_to_agg_client, session_id, key);
        true
    }

    /// Returns the aggregation client of a session.
    pub fn get_aggregation_client(&self, session_id: SessionId) -> (addr: Option<SocketAddr>)
        ensures
            addr == (if self.agg_clients().contains_key(session_id) {
                Some(session_tables::addr_of(self.agg_clients()[session_id]))
            } else {
                None
            }),
    {
        match session_tables::get_addr(&self.session_to_agg_client, session_id) {
            Some(key) => Some(session_tables::from_key(key)),
            None => None,
        }
    }

    /// Remembers original client and aggregation client of a session that the
    /// peer created.
    pub fn remember_session_for_server(
        &mut self,
        session_id: SessionId,
        original_client_addr: SocketAddr,
        agg_client_addr: SocketAddr,
        now: Instant,
    )
        ensures
            final(self).sessions() == old(self).sessions().insert(
                session_tables::key_of(original_client_addr),
                (session_id, now.nanos, now.nanos),
            ),
            final(self).clients() == old(self).clients().insert(
                session_id,
                session_tables::key_of(original_client_addr),
            ),
            final(self).agg_clients() == old(self).agg_clients().insert(
                session_id,
                session_tables::key_of(agg_client_addr),
            ),
            final(self).same_settings(*old(self)),
            old(self).paired() && (old(self).clients().contains_key(session_id)
                ==> old(self).clients()[session_id] == session_tables::key_of(original_client_addr))
                ==> final(self).paired(),
    {
        let agg_key = session_tables::to_key(agg_client_addr);
        session_tables::put_addr(&mut self.session_to_agg_client, session_id, agg_key);
        let info = SessionInfo { session_id, created_at: now, last_used: now };
        let key = session_tables::to_key(original_client_addr);
        session_tables::put_session(&mut self.addr_to_session, key, info.to_entry());
        session_tables::put_addr(&mut self.session_to_addr, session_id, key);
    }

    /// Returns the original client address of a session.
    pub fn get_original_client_addr(&self, session_id: SessionId) -> (addr: Option<SocketAddr>)
        ensures
            addr == (if self.clients().contains_key(session_id) {
                Some(session_tables::addr_of(self.clients()[session_id]))
            } else {
                None
            }),
    {
        self.get_client_addr(session_id)
    }

    /// Returns all sessions that have an aggregation client, each once and with
    /// it. The order is left open.
    pub fn get_active_sessions(&self) -> (active: Vec<(SessionId, SocketAddr)>)
        ensures
            session_tables::lists(
                active@,
                self.agg_clients().map_values(|key: AddrKey| session_tables::addr_of(key)),
            ),
    {
        let entries = session_tables::list_addrs(&self.session_to_agg_client);
        let mut active: Vec<(SessionId, SocketAddr)> = Vec::new();
        let mut i: usize = 0;
        while i < entries.len()
            invariant
                i <= entries@.len(),
                active@.len() == i,
                forall|j: int|
                    0 <= j < i ==> (#[trigger] active@[j]) == (
                        entries@[j].0,
                        session_tables::addr_of(entries@[j].1),
                    ),
            decreases entries@.len() - i,
        {
            let e = entries[i];
            active.push((e.0, session_tables::from_key(e.1)));
            i = i + 1;
        }
        proof {
            let table = self.agg_clients();
            let f = |key: AddrKey| session_tables::addr_of(key);
            assert forall|k: u32| #[trigger] table.map_values(f).contains_key(k) implies exists|
                i: int,
            | 0 <= i < active@.len() && (#[trigger] active@[i]).0 == k by {
                assert(table.contains_key(k));
                let i = choose|i: int| 0 <= i < entries@.len() && (#[trigger] entries@[i]).0 == k;
                assert(active@[i].0 == k);
            }
            assert forall|i: int| 0 <= i < active@.len() implies table.map_values(f).contains_pair(
                (#[trigger] active@[i]).0,
                active@[i].1,
            ) by {
                assert(table.contains_pair(entries@[i].0, entries@[i].1));
            }
        }
        active
    }

    /// Derives a session from addresses, ports and protocol, so that packets of
    /// one flow belong to one session.
    pub fn generate_udp_session_id(
        src_addr: SocketAddr,
        dst_addr: SocketAddr,
        protocol: u8,
    ) -> (id: u64)
        ensures
            id == flow_session(src_addr, dst_addr, protocol),
    {
        let mut hasher = DefaultHasher::new();
        hash_endpoint(&mut hasher, src_addr);
        hash_endpoint(&mut hasher, dst_addr);
        let mut last: Vec<u8> = Vec::new();
        last.push(protocol);
        hasher.write(last.as_slice());
        assert(last@ =~= seq![protocol]);
        assert(hasher@ =~= hashed_flow(src_addr, dst_addr, protocol));
        hasher.finish()
    }

    /// Derives a session from the first bytes of a packet, 32 at most.
    pub fn generate_session_from_packet(data: &[u8]) -> (id: u64)
        ensures
            id == hashing::session_of(
                data@.take(
                    if data@.len() < 32 {
                        data@.len() as int
                    } else {
                        32
                    },
                ),
            ),
    {
        let sample: usize = if data.len() < 32 {
            data.len()
        } else {
            32
        };
        hashing::data_session_id(slice_subrange(data, 0, sample))
    }

    /// Associates a session with an aggregation client.
    pub fn set_agg_client_for_session(
        &mut self,
        session_id: SessionId,
        agg_client_addr: SocketAddr,
    )
        ensures
            final(self).sessions() == old(self).sessions(),
            final(self).clients() == old(self).clients(),
            final(self).agg_clients() == old(self).agg_clients().insert(
                session_id,
                session_tables::key_of(agg_client_addr),
            ),
            final(self).same_settings(*old(self)),
    {
        let _ = self.remember_aggregation_client(session_id, agg_client_addr);
    }

    /// Returns the aggregation client of a session.
    pub fn get_agg_client_for_session(&self, session_id: SessionId) -> (addr: Option<SocketAddr>)
        ensures
            addr == (if self.agg_clients().contains_key(session_id) {
                Some(session_tables::addr_of(self.agg_clients()[session_id]))
            } else {
                None
            }),
    {
        self.get_aggregation_client(session_id)
    }
}

/// Derives a session from addresses, ports and protocol.
pub fn generate_udp_session_id(src_addr: SocketAddr, dst_addr: SocketAddr, protocol: u8) -> (id:
    u64)
    ensures
        id == flow_session(src_addr, dst_addr, protocol),
{
    SessionManager::generate_udp_session_id(src_addr, dst_addr, protocol)
}

/// What is hashed of an endpoint: its IP version, its address and its port.
pub open spec fn hashed_endpoint(addr: SocketAddr) -> Seq<Seq<u8>> {
    match addr.host() {
        IpAddr::V4(ip) => seq![
            wire::le_bytes(0, 8),
            wire::be_bytes(ip.bits as nat, 4),
            wire::le_bytes(addr.port_number() as nat, 2),
        ],
        IpAddr::V6(ip) => seq![
            wire::le_bytes(1, 8),
            wire::be_bytes(ip.bits as nat, 16),
            wire::le_bytes(addr.port_number() as nat, 2),
        ],
    }
}

/// What is hashed of a flow.
pub open spec fn hashed_flow(src: SocketAddr, dst: SocketAddr, protocol: u8) -> Seq<Seq<u8>> {
    hashed_endpoint(src) + hashed_endpoint(dst) + seq![seq![protocol]]
}

/// The session of a flow.
pub open spec fn flow_session(src: SocketAddr, dst: SocketAddr, protocol: u8) -> u64 {
    DefaultHasher::spec_finish(hashed_flow(src, dst, protocol))
}

fn hash_endpoint(hasher: &mut DefaultHasher, addr: SocketAddr)
    ensures
        final(hasher)@ == old(hasher)@ + hashed_endpoint(addr),
{
    let mut octets: Vec<u8> = Vec::new();
    let version: u64 = match addr.ip() {
        IpAddr::V4(ip) => {
            wire::write_be_u32(&mut octets, ip.bits);
            assert(octets@ =~= wire::be_bytes(ip.bits as nat, 4));
            0
        },
        IpAddr::V6(ip) => {
            wire::write_be_u128(&mut octets, ip.bits);
            assert(octets@ =~= wire::be_bytes(ip.bits as nat, 16));
            1
        },
    };
    let family = wire::to_le_bytes(version, 8);
    hasher.write(family.as_slice());
    hasher.write(octets.as_slice());
    let port = wire::to_le_bytes(addr.port() as u64, 2);
    hasher.write(port.as_slice());
    assert(hasher@ =~= old(hasher)@ + hashed_endpoint(addr));
}

proof fn le_value_unique(a: nat, b: nat, n: nat)
    requires
        a < wire::pow256(n),
        b < wire::pow256(n),
        wire::le_bytes(a, n) == wire::le_bytes(b, n),
    ensures
        a == b,
    decreases n,
{
    if n > 0 {
        let ta = wire::le_bytes(a / 256, (n - 1) as nat);
        let tb = wire::le_bytes(b / 256, (n - 1) as nat);
        let fa = seq![(a % 256) as u8] + ta;
        let fb = seq![(b % 256) as u8] + tb;
        assert(fa[0] == fb[0]);
        assert(fa.subrange(1, fa.len() as int) =~= ta);
        assert(fb.subrange(1, fb.len() as int) =~= tb);
        assert(a / 256 < wire::pow256((n - 1) as nat) && b / 256 < wire::pow256((n - 1) as nat))
            by (nonlinear_arith)
            requires
                a < 256 * wire::pow256((n - 1) as nat),
                b < 256 * wire::pow256((n - 1) as nat),
        ;
        le_value_unique(a / 256, b / 256, (n - 1) as nat);
    }
}

proof fn endpoint_unique(a: SocketAddr, b: SocketAddr)
    requires
        hashed_endpoint(a) == hashed_endpoint(b),
    ensures
        a.host() == b.host(),
        a.port_number() == b.port_number(),
{
    wire::pow256_values();
    let ha = hashed_endpoint(a);
    let hb = hashed_endpoint(b);
    assert(ha[0] == hb[0] && ha[1] == hb[1] && ha[2] == hb[2]);
    le_value_unique(a.port_number() as nat, b.port_number() as nat, 2);
    match (a.host(), b.host()) {
        (IpAddr::V4(x), IpAddr::V4(y)) => {
            wire::be_round_trip(x.bits as nat, 4);
            wire::be_round_trip(y.bits as nat, 4);
        },
        (IpAddr::V6(x), IpAddr::V6(y)) => {
            wire::be_round_trip(x.bits as nat, 16);
            wire::be_round_trip(y.bits as nat, 16);
        },
        (IpAddr::V4(_), IpAddr::V6(_)) => {
            le_value_unique(0, 1, 8);
        },
        (IpAddr::V6(_), IpAddr::V4(_)) => {
            le_value_unique(1, 0, 8);
        },
    }
}

/// Flows that differ in an address, a port or the protocol are hashed from
/// different input.
pub proof fn hashed_flow_unique(
    src1: SocketAddr,
    dst1: SocketAddr,
    protocol1: u8,
    src2: SocketAddr,
    dst2: SocketAddr,
    protocol2: u8,
)
    requires
        hashed_flow(src1, dst1, protocol1) == hashed_flow(src2, dst2, protocol2),
    ensures
        src1.host() == src2.host() && src1.port_number() == src2.port_number(),
        dst1.host() == dst2.host() && dst1.port_number() == dst2.port_number(),
        protocol1 == protocol2,
{
    let a = hashed_flow(src1, dst1, protocol1);
    let b = hashed_flow(src2, dst2, protocol2);
    assert(a.subrange(0, 3) =~= hashed_endpoint(src1));
    assert(b.subrange(0, 3) =~= hashed_endpoint(src2));
    assert(a.subrange(3, 6) =~= hashed_endpoint(dst1));
    assert(b.subrange(3, 6) =~= hashed_endpoint(dst2));
    assert(a[6] == seq![protocol1] && b[6] == seq![protocol2]);
    assert(seq![protocol1][0] == seq![protocol2][0]);
    endpoint_unique(src1, src2);
    endpoint_unique(dst1, dst2);
}

/// `after` is `before` without the identifiers for which `gone` holds.
pub open spec fn cut(
    before: Map<u32, AddrKey>,
    after: Map<u32, AddrKey>,
    gone: spec_fn(u32) -> bool,
) -> bool {
    &&& forall|id: u32|
        #![trigger after.contains_key(id)]
        after.contains_key(id) <==> before.contains_key(id) && !gone(id)
    &&& forall|id: u32| after.contains_key(id) ==> #[trigger] after[id] == before[id]
}

spec fn dropped_in(
    entries: Seq<(AddrKey, SessionEntry)>,
    n: int,
    id: u32,
    now: u64,
    timeout: u128,
) -> bool {
    exists|j: int|
        0 <= j < n && (#[trigger] entries[j]).1.0 == id && !session_tables::alive(
            entries[j].1,
            now,
            timeout,
        )
}

proof fn dropped_step(
    entries: Seq<(AddrKey, SessionEntry)>,
    i: int,
    id: u32,
    now: u64,
    timeout: u128,
)
    requires
        0 <= i < entries.len(),
    ensures
        dropped_in(entries, i + 1, id, now, timeout) <==> dropped_in(entries, i, id, now, timeout)
            || (entries[i].1.0 == id && !session_tables::alive(entries[i].1, now, timeout)),
{
}

proof fn dropped_all(
    entries: Seq<(AddrKey, SessionEntry)>,
    sessions: Map<AddrKey, SessionEntry>,
    id: u32,
    now: u64,
    timeout: u128,
)
    requires
        session_tables::lists(entries, sessions),
    ensures
        dropped_in(entries, entries.len() as int, id, now, timeout) <==> exists|key: AddrKey|
            #[trigger]
            sessions.contains_key(key) && sessions[key].0 == id && !session_tables::alive(
                sessions[key],
                now,
                timeout,
            ),
{
    if dropped_in(entries, entries.len() as int, id, now, timeout) {
        let j = choose|j: int|
            0 <= j < entries.len() && (#[trigger] entries[j]).1.0 == id && !session_tables::alive(
                entries[j].1,
                now,
                timeout,
            );
        assert(sessions.contains_pair(entries[j].0, entries[j].1));
        assert(sessions.contains_key(entries[j].0));
    }
    if exists|key: AddrKey| #[trigger]
        sessions.contains_key(key) && sessions[key].0 == id && !session_tables::alive(
            sessions[key],
            now,
            timeout,
        ) {
        let key = choose|key: AddrKey| #[trigger]
            sessions.contains_key(key) && sessions[key].0 == id && !session_tables::alive(
                sessions[key],
                now,
                timeout,
            );
        let j = choose|j: int| 0 <= j < entries.len() && (#[trigger] entries[j]).0 == key;
        assert(sessions.contains_pair(entries[j].0, entries[j].1));
    }
}

proof fn listed_len(entries: Seq<(AddrKey, SessionEntry)>, sessions: Map<AddrKey, SessionEntry>)
    requires
        session_tables::lists(entries, sessions),
    ensures
        sessions.dom().finite(),
{
    let keys = entries.map_values(|e: (AddrKey, SessionEntry)| e.0);
    assert forall|k: AddrKey| sessions.dom().contains(k) implies keys.to_set().contains(k) by {
        assert(sessions.contains_key(k));
        let i = choose|i: int| 0 <= i < entries.len() && (#[trigger] entries[i]).0 == k;
        assert(keys[i] == k);
    }
    vstd::seq_lib::seq_to_set_is_finite(keys);
    vstd::set_lib::lemma_set_subset_finite(keys.to_set(), sessions.dom());
}

/// What the checksum of an address is computed from: the IP version, the
/// address and the port.
pub open spec fn addr_bytes(addr: SocketAddr) -> Seq<u8> {
    match addr.host() {
        IpAddr::V4(ip) => seq![4u8] + wire::be_bytes(ip.bits as nat, 4) + wire::be_bytes(
            addr.port_number() as nat,
            2,
        ),
        IpAddr::V6(ip) => seq![6u8] + wire::be_bytes(ip.bits as nat, 16) + wire::be_bytes(
            addr.port_number() as nat,
            2,
        ),
    }
}

/// Returns what the checksum of an address is computed from.
pub fn checksum_input(addr: SocketAddr) -> (bytes: Vec<u8>)
    ensures
        bytes@ == addr_bytes(addr),
{
    let mut bytes: Vec<u8> = Vec::new();
    match addr.ip() {
        IpAddr::V4(ip) => {
            bytes.push(4);
            wire::write_be_u32(&mut bytes, ip.bits);
        },
        IpAddr::V6(ip) => {
            bytes.push(6);
            wire::write_be_u128(&mut bytes, ip.bits);
        },
    }
    wire::write_be_u16(&mut bytes, addr.port());
    assert(bytes@ =~= addr_bytes(addr));
    bytes
}

/// Packet header for session tracking, twelve bytes in total.
#[derive(Debug, Clone, Copy, PartialEq, Eq, Structural)]
pub struct SessionHeader {
    /// Session identifier.
    pub session_id: u32,
    /// Checksum of the client address.
    pub addr_crc32: u32,
    /// Port of the client address.
    pub client_port: u16,
    /// Padding.
    pub padding: u16,
}

impl SessionHeader {
    /// The bytes of this header.
    pub open spec fn bytes(self) -> Seq<u8> {
        wire::be_bytes(self.session_id as nat, 4) + (wire::be_bytes(self.addr_crc32 as nat, 4) + (
        wire::be_bytes(self.client_port as nat, 2) + wire::be_bytes(self.padding as nat, 2)))
    }

    /// The header that the first twelve bytes stand for.
    pub open spec fn parsed(bytes: Seq<u8>) -> SessionHeader {
        SessionHeader {
            session_id: wire::be_value(bytes.subrange(0, 4)) as u32,
            addr_crc32: wire::be_value(bytes.subrange(4, 8)) as u32,
            client_port: wire::be_value(bytes.subrange(8, 10)) as u16,
            padding: wire::be_value(bytes.subrange(10, 12)) as u16,
        }
    }

    /// This header was made for `client_addr`, if `checksum` is the checksum of
    /// that address.
    pub open spec fn fits(self, checksum: u32, client_addr: SocketAddr) -> bool {
        self.addr_crc32 == checksum && self.client_port == client_addr.port_number()
    }

    /// Creates a header for a client address.
    pub fn new(session_id: SessionId, client_addr: SocketAddr) -> (header: SessionHeader)
        ensures
            header.session_id == session_id,
            header.addr_crc32 == crc::crc32_checksum(addr_bytes(client_addr)),
            header.client_port == client_addr.port_number(),
            header.padding == 0,
    {
        Self::with_checksum(session_id, Self::crc32_addr(client_addr), client_addr)
    }

    /// Creates a header for a client address whose checksum is known.
    pub fn with_checksum(session_id: SessionId, checksum: u32, client_addr: SocketAddr) -> (header:
        SessionHeader)
        ensures
            header.session_id == session_id,
            header.addr_crc32 == checksum,
            header.client_port == client_addr.port_number(),
            header.padding == 0,
    {
        SessionHeader {
            session_id,
            addr_crc32: checksum,
            client_port: client_addr.port(),
            padding: 0,
        }
    }

    fn crc32_addr(addr: SocketAddr) -> (sum: u32)
        ensures
            sum == crc::crc32_checksum(addr_bytes(addr)),
    {
        let bytes = checksum_input(addr);
        crc::crc32(bytes.as_slice())
    }

    /// Validates the header against a client address.
    pub fn validate(&self, client_addr: SocketAddr) -> (r: bool)
        ensures
            r == self.fits(crc::crc32_checksum(addr_bytes(client_addr)), client_addr),
    {
        self.matches(Self::crc32_addr(client_addr), client_addr)
    }

    /// Validates the header against a client address whose checksum is known.
    pub fn matches(&self, checksum: u32, client_addr: SocketAddr) -> (r: bool)
        ensures
            r == self.fits(checksum, client_addr),
    {
        self.addr_crc32 == checksum && self.client_port == client_addr.port()
    }

    /// Encodes the header.
    pub fn to_bytes(&self) -> (bytes: [u8; 12])
        ensures
            bytes@ == self.bytes(),
    {
        let mut b: Vec<u8> = Vec::new();
        wire::write_be_u32(&mut b, self.session_id);
        wire::write_be_u32(&mut b, self.addr_crc32);
        wire::write_be_u16(&mut b, self.client_port);
        wire::write_be_u16(&mut b, self.padding);
        assert(b@ =~= self.bytes());
        proof {
            wire::be_bytes_len(self.session_id as nat, 4);
            wire::be_bytes_len(self.addr_crc32 as nat, 4);
            wire::be_bytes_len(self.client_port as nat, 2);
            wire::be_bytes_len(self.padding as nat, 2);
        }
        let bytes = [
            b[0],
            b[1],
            b[2],
            b[3],
            b[4],
            b[5],
            b[6],
            b[7],
            b[8],
            b[9],
            b[10],
            b[11],
        ];
        assert(bytes@ =~= b@);
        bytes
    }

    /// Decodes a header from the first twelve bytes.
    pub fn from_bytes(bytes: &[u8]) -> (header: Option<SessionHeader>)
        ensures
            header == (if bytes@.len() < 12 {
                None
            } else {
                Some(SessionHeader::parsed(bytes@))
            }),
    {
        if bytes.len() < 12 {
            return None;
        }
        let mut cursor = Cursor::new(bytes);
        let ghost b = bytes@;
        let (session_id, addr_crc32, client_port, padding) = match (
            cursor.read_u32(),
            cursor.read_u32(),
            cursor.read_u16(),
            cursor.read_u16(),
        ) {
            (Ok(id), Ok(sum), Ok(port), Ok(pad)) => (id, sum, port, pad),
            _ => return None,
        };
        proof {
            let s1 = b.subrange(4, b.len() as int);
            let s2 = s1.subrange(4, s1.len() as int);
            let s3 = s2.subrange(2, s2.len() as int);
            assert(s1.subrange(0, 4) =~= b.subrange(4, 8));
            assert(s2.subrange(0, 2) =~= b.subrange(8, 10));
            assert(s3.subrange(0, 2) =~= b.subrange(10, 12));
        }
        Some(SessionHeader { session_id, addr_crc32, client_port, padding })
    }
}

/// Decoding an encoded header gives the header back, whatever follows it.
pub proof fn header_round_trip(header: SessionHeader, tail: Seq<u8>)
    ensures
        header.bytes().len() == 12,
        SessionHeader::parsed(header.bytes() + tail) == header,
{
    wire::pow256_values();
    wire::be_round_trip(header.session_id as nat, 4);
    wire::be_round_trip(header.addr_crc32 as nat, 4);
    wire::be_round_trip(header.client_port as nat, 2);
    wire::be_round_trip(header.padding as nat, 2);
    let b = header.bytes() + tail;
    assert(b.subrange(0, 4) =~= wire::be_bytes(header.session_id as nat, 4));
    assert(b.subrange(4, 8) =~= wire::be_bytes(header.addr_crc32 as nat, 4));
    assert(b.subrange(8, 10) =~= wire::be_bytes(header.client_port as nat, 2));
    assert(b.subrange(10, 12) =~= wire::be_bytes(header.padding as nat, 2));
}

/// Encoding a decoded header gives the twelve bytes back.
pub proof fn header_inverse(bytes: Seq<u8>)
    requires
        bytes.len() >= 12,
    ensures
        SessionHeader::parsed(bytes).bytes() == bytes.subrange(0, 12),
{
    wire::pow256_values();
    let a = bytes.subrange(0, 4);
    let b = bytes.subrange(4, 8);
    let c = bytes.subrange(8, 10);
    let d = bytes.subrange(10, 12);
    wire::be_round_trip_bytes(a);
    wire::be_round_trip_bytes(b);
    wire::be_round_trip_bytes(c);
    wire::be_round_trip_bytes(d);
    wire::be_value_bound(a);
    wire::be_value_bound(b);
    wire::be_value_bound(c);
    wire::be_value_bound(d);
    assert(a + (b + (c + d)) =~= bytes.subrange(0, 12));
}

/// Packet with a session header in its first twelve bytes.
pub struct SessionPacket<'a> {
    data: &'a [u8],
}

impl<'a> SessionPacket<'a> {
    #[verifier::type_invariant]
    spec fn has_header(self) -> bool {
        self.data@.len() >= 12
    }

    /// The whole packet.
    pub closed spec fn raw(&self) -> Seq<u8> {
        self.data@
    }

    /// Wraps packet data that is long enough for a header.
    pub fn new(data: &'a [u8]) -> (packet: Option<SessionPacket<'a>>)
        ensures
            packet is Some <==> data@.len() >= 12,
            packet matches Some(p) ==> p.raw() == data@,
    {
        if data.len() < 12 {
            return None;
        }
        Some(SessionPacket { data })
    }

    /// Returns the session header.
    pub fn header(&self) -> (header: Option<SessionHeader>)
        ensures
            header == Some(SessionHeader::parsed(self.raw())),
    {
        proof {
            use_type_invariant(self);
        }
        let front = slice_subrange(self.data, 0, 12);
        proof {
            assert(front@.subrange(0, 4) =~= self.data@.subrange(0, 4));
            assert(front@.subrange(4, 8) =~= self.data@.subrange(4, 8));
            assert(front@.subrange(8, 10) =~= self.data@.subrange(8, 10));
            assert(front@.subrange(10, 12) =~= self.data@.subrange(10, 12));
        }
        SessionHeader::from_bytes(front)
    }

    /// Returns the payload.
    pub fn payload(&self) -> (payload: &[u8])
        ensures
            payload@ == self.raw().subrange(12, self.raw().len() as int),
            self.raw().len() >= 12,
    {
        proof {
            use_type_invariant(self);
        }
        slice_subrange(self.data, 12, self.data.len())
    }

    /// Returns the whole packet.
    pub fn raw_data(&self) -> (data: &[u8])
        ensures
            data@ == self.raw(),
    {
        self.data
    }
}

/// Builder for session packets.
#[derive(Debug, Clone)]
pub struct SessionPacketBuilder {
    header: SessionHeader,
    payload: Vec<u8>,
}

impl SessionPacketBuilder {
    /// The header of the packet.
    pub closed spec fn head(&self) -> SessionHeader {
        self.header
    }

    /// The payload of the packet.
    pub closed spec fn body(&self) -> Seq<u8> {
        self.payload@
    }

    /// Creates a builder for a packet of a client.
    pub fn new(session_id: SessionId, client_addr: SocketAddr, payload: Vec<u8>) -> (builder:
        SessionPacketBuilder)
        ensures
            builder.head() == (SessionHeader {
                session_id,
                addr_crc32: crc::crc32_checksum(addr_bytes(client_addr)),
                client_port: client_addr.port_number(),
                padding: 0,
            }),
            builder.body() == payload@,
    {
        SessionPacketBuilder { header: SessionHeader::new(session_id, client_addr), payload }
    }

    /// Creates a builder for a packet with a given header.
    pub fn with_header(header: SessionHeader, payload: Vec<u8>) -> (builder: SessionPacketBuilder)
        ensures
            builder.head() == header,
            builder.body() == payload@,
    {
        SessionPacketBuilder { header, payload }
    }

    /// Builds the packet: the header, then the payload.
    pub fn build(self) -> (packet: Vec<u8>)
        ensures
            packet@ == self.head().bytes() + self.body(),
    {
        let header_bytes = self.header.to_bytes();
        let mut packet: Vec<u8> = Vec::new();
        packet.extend_from_slice(header_bytes.as_slice());
        packet.extend_from_slice(self.payload.as_slice());
        assert(packet@ =~= self.head().bytes() + self.body());
        packet
    }
}

/// A built packet holds its header and its payload.
pub proof fn packet_round_trip(header: SessionHeader, payload: Seq<u8>)
    ensures
        ({
            let packet = header.bytes() + payload;
            &&& packet.len() >= 12
            &&& SessionHeader::parsed(packet) == header
            &&& packet.subrange(12, packet.len() as int) == payload
        }),
{
    header_round_trip(header, payload);
    let packet = header.bytes() + payload;
    assert(packet.subrange(12, packet.len() as int) =~= payload);
}

/// A header made for an address is valid for that address.
pub proof fn own_header_is_valid(header: SessionHeader, client_addr: SocketAddr)
    requires
        header.addr_crc32 == crc::crc32_checksum(addr_bytes(client_addr)),
        header.client_port == client_addr.port_number(),
    ensures
        header.fits(crc::crc32_checksum(addr_bytes(client_addr)), client_addr),
{
}

/// A header made for an IPv4 address is valid for no other IPv4 address.
pub proof fn ipv4_addresses_are_told_apart(header: SessionHeader, a: SocketAddr, b: SocketAddr)
    requires
        header.addr_crc32 == crc::crc32_checksum(addr_bytes(a)),
        header.client_port == a.port_number(),
        a is V4,
        b is V4,
    ensures
        header.fits(crc::crc32_checksum(addr_bytes(b)), b) <==> a == b,
{
    if header.fits(crc::crc32_checksum(addr_bytes(b)), b) {
        wire::pow256_values();
        let x = a->V4_0.ip.bits as nat;
        let y = b->V4_0.ip.bits as nat;
        wire::be_round_trip(x, 4);
        wire::be_round_trip(y, 4);
        crc::runs_are_told_apart(
            seq![4u8],
            wire::be_bytes(x, 4),
            wire::be_bytes(y, 4),
            wire::be_bytes(a.port_number() as nat, 2),
        );
    }
}

/// Addresses that differ in IP version, address or port have checksums of
/// different input.
pub proof fn addr_bytes_unique(a: SocketAddr, b: SocketAddr)
    requires
        addr_bytes(a) == addr_bytes(b),
    ensures
        a.host() == b.host(),
        a.port_number() == b.port_number(),
{
    wire::pow256_values();
    let x = addr_bytes(a);
    let y = addr_bytes(b);
    wire::be_round_trip(a.port_number() as nat, 2);
    wire::be_round_trip(b.port_number() as nat, 2);
    match (a.host(), b.host()) {
        (IpAddr::V4(i), IpAddr::V4(j)) => {
            wire::be_round_trip(i.bits as nat, 4);
            wire::be_round_trip(j.bits as nat, 4);
            assert(x.subrange(1, 5) =~= wire::be_bytes(i.bits as nat, 4));
            assert(y.subrange(1, 5) =~= wire::be_bytes(j.bits as nat, 4));
            assert(x.subrange(5, 7) =~= wire::be_bytes(a.port_number() as nat, 2));
            assert(y.subrange(5, 7) =~= wire::be_bytes(b.port_number() as nat, 2));
        },
        (IpAddr::V6(i), IpAddr::V6(j)) => {
            wire::be_round_trip(i.bits as nat, 16);
            wire::be_round_trip(j.bits as nat, 16);
            assert(x.subrange(1, 17) =~= wire::be_bytes(i.bits as nat, 16));
            assert(y.subrange(1, 17) =~= wire::be_bytes(j.bits as nat, 16));
            assert(x.subrange(17, 19) =~= wire::be_bytes(a.port_number() as nat, 2));
            assert(y.subrange(17, 19) =~= wire::be_bytes(b.port_number() as nat, 2));
        },
        (IpAddr::V4(_), IpAddr::V6(_)) => {
            assert(x[0] == 4 && y[0] == 6);
        },
        (IpAddr::V6(_), IpAddr::V4(_)) => {
            assert(x[0] == 6 && y[0] == 4);
        },
    }
}

} // verus!
