//! What holds of sessions over several calls.
use crate::addr::{IpAddr, SocketAddr};
use crate::session::{
    SessionHeader, SessionId, SessionManager, SessionPacket, SessionPacketBuilder, SessionStats,
};
use crate::session_tables;
use crate::time::{Duration, Instant};
use std::collections::hash_map::DefaultHasher;
use vstd::prelude::*;
use vstd::std_specs::hash::DefaultHasherAdditionalSpecFns;

verus! {

/// A client keeps its session: asking again gives the same one, and none is
/// created.
pub proof fn same_client_same_session(
    m: SessionManager,
    m1: SessionManager,
    m2: SessionManager,
    client: SocketAddr,
    t1: Instant,
    t2: Instant,
    id1: SessionId,
    id2: SessionId,
)
    requires
        m.opened(m1, client, t1, id1),
        m1.opened(m2, client, t2, id2),
    ensures
        id1 == id2,
        m2.created() == m1.created(),
{
}

/// Different clients have different sessions, and each session leads back to its
/// client.
pub proof fn clients_do_not_share_sessions(
    m: SessionManager,
    m1: SessionManager,
    m2: SessionManager,
    a: SocketAddr,
    b: SocketAddr,
    t1: Instant,
    t2: Instant,
    id1: SessionId,
    id2: SessionId,
)
    requires
        m.paired(),
        m.can_open(a),
        m.opened(m1, a, t1, id1),
        m1.can_open(b),
        m1.opened(m2, b, t2, id2),
        a != b,
    ensures
        id1 != id2,
        m2.paired(),
        m2.clients().contains_pair(id1, session_tables::key_of(a)),
        m2.clients().contains_pair(id2, session_tables::key_of(b)),
        session_tables::addr_of(m2.clients()[id1]) == a,
        session_tables::addr_of(m2.clients()[id2]) == b,
{
    session_tables::key_round_trip(a);
    session_tables::key_round_trip(b);
    let ka = session_tables::key_of(a);
    let kb = session_tables::key_of(b);
    assert(ka != kb);
    assert(m1.paired()) by {
        opening_keeps_pairs(m, m1, a, t1, id1);
    }
    opening_keeps_pairs(m1, m2, b, t2, id2);
    assert(m1.sessions().contains_key(ka));
    assert(m2.sessions().contains_key(ka) && m2.sessions()[ka].0 == id1);
    assert(m2.sessions().contains_key(kb) && m2.sessions()[kb].0 == id2);
}

/// Opening a session keeps every client address with a session the address of
/// that session.
pub proof fn opening_keeps_pairs(
    m: SessionManager,
    m1: SessionManager,
    client: SocketAddr,
    now: Instant,
    id: SessionId,
)
    requires
        m.paired(),
        m.can_open(client),
        m.opened(m1, client, now, id),
    ensures
        m1.paired(),
        m1.known(id),
{
    let key = session_tables::key_of(client);
    assert forall|k: session_tables::AddrKey| #[trigger]
        m1.sessions().contains_key(k) implies m1.clients().contains_pair(
        m1.sessions()[k].0,
        k,
    ) by {
        if k != key {
            assert(m.sessions().contains_key(k));
        }
    }
    assert(m1.sessions().contains_key(key));
}

/// As long as identifiers have not run out, every client can open a session, and
/// the identifier of a new one is not zero and was not in use.
pub proof fn new_sessions_are_fresh(
    m: SessionManager,
    m1: SessionManager,
    client: SocketAddr,
    now: Instant,
    id: SessionId,
)
    requires
        m.numbered(),
        m.last_id() < u32::MAX,
        m.opened(m1, client, now, id),
    ensures
        m.can_open(client),
        m1.numbered(),
        !m.sessions().contains_key(session_tables::key_of(client)) ==> id != 0
            && !m.clients().contains_key(id),
{
}

/// A session that was used within the timeout survives the cleanup.
pub proof fn used_session_survives(
    m: SessionManager,
    m1: SessionManager,
    m2: SessionManager,
    id: SessionId,
    used: Instant,
    now: Instant,
)
    requires
        m.paired(),
        m.known(id),
        m.touched(m1, id, used),
        m1.cleaned(m2, now),
        now.nanos - used.nanos <= m.timeout().nanos,
    ensures
        m2.known(id),
        m2.clients()[id] == m.clients()[id],
{
    let key = m.clients()[id];
    assert(m1.sessions().contains_key(key));
    if m1.expires(id, now) {
        let k = choose|k: session_tables::AddrKey| #[trigger]
            m1.sessions().contains_key(k) && m1.sessions()[k].0 == id && !session_tables::alive(
                m1.sessions()[k],
                now.nanos,
                m1.timeout().nanos,
            );
        assert(m.sessions().contains_key(k));
        assert(k == key);
    }
    assert(m2.clients().contains_key(id));
    assert(m2.sessions().contains_key(key));
    assert(m2.sessions()[key] == m1.sessions()[key]);
}

/// Nothing is left of an expired session after the cleanup: neither its client
/// nor its aggregation client can be looked up.
pub proof fn expired_session_is_forgotten(
    m: SessionManager,
    m1: SessionManager,
    id: SessionId,
    now: Instant,
)
    requires
        m.cleaned(m1, now),
        m.expires(id, now),
    ensures
        !m1.clients().contains_key(id),
        !m1.agg_clients().contains_key(id),
        !m1.known(id),
{
}

/// A cleanup right after another finds nothing to drop.
pub proof fn cleanup_is_idempotent(
    m: SessionManager,
    m1: SessionManager,
    m2: SessionManager,
    now: Instant,
)
    requires
        m.cleaned(m1, now),
        m1.cleaned(m2, now),
    ensures
        m2.sessions() == m1.sessions(),
        m2.clients() == m1.clients(),
        m2.agg_clients() == m1.agg_clients(),
{
    assert forall|id: u32| !m1.expires(id, now) by {
        if m1.expires(id, now) {
            let k = choose|k: session_tables::AddrKey| #[trigger]
                m1.sessions().contains_key(k) && m1.sessions()[k].0 == id && !session_tables::alive(
                    m1.sessions()[k],
                    now.nanos,
                    m1.timeout().nanos,
                );
            assert(m1.sessions()[k] == m.sessions()[k]);
        }
    }
    assert(m2.sessions() =~= m1.sessions());
    assert(m2.clients() =~= m1.clients());
    assert(m2.agg_clients() =~= m1.agg_clients());
}

/// The clients that asked for a session in the first `n` calls.
pub open spec fn asked(clients: Seq<SocketAddr>, n: int) -> Set<SocketAddr> {
    clients.take(n).to_set()
}

/// `states` is what a new manager went through while clients asked for their
/// sessions, one after the other, and got `ids`.
pub open spec fn history(
    states: Seq<SessionManager>,
    clients: Seq<SocketAddr>,
    times: Seq<Instant>,
    ids: Seq<SessionId>,
) -> bool {
    &&& states.len() == clients.len() + 1
    &&& times.len() == clients.len()
    &&& ids.len() == clients.len()
    &&& states[0].is_new()
    &&& forall|i: int|
        #![trigger ids[i]]
        0 <= i < clients.len() ==> states[i].opened(states[i + 1], clients[i], times[i], ids[i])
}

/// The manager has exactly the sessions of these clients: their identifiers count
/// up from two, both counters give the number of clients, and every session leads
/// back to its client.
pub open spec fn serves(m: SessionManager, clients: Set<SocketAddr>) -> bool {
    &&& clients.finite()
    &&& m.paired()
    &&& m.last_id() == 1 + clients.len()
    &&& m.created() == clients.len()
    &&& m.clients().dom().finite()
    &&& m.clients().len() == clients.len()
    &&& forall|a: SocketAddr|
        #![trigger session_tables::key_of(a)]
        m.sessions().contains_key(session_tables::key_of(a)) <==> clients.contains(a)
    &&& forall|id: u32| #[trigger]
        m.clients().contains_key(id) ==> 2 <= id <= m.last_id()
}

/// A manager that serves some clients serves one more once that has asked for its
/// session, which is not zero.
pub proof fn one_more_is_served(
    m: SessionManager,
    m1: SessionManager,
    clients: Set<SocketAddr>,
    client: SocketAddr,
    now: Instant,
    id: SessionId,
)
    requires
        serves(m, clients),
        clients.insert(client).len() < u32::MAX,
        m.opened(m1, client, now, id),
    ensures
        serves(m1, clients.insert(client)),
        m1.known(id),
        m1.clients()[id] == session_tables::key_of(client),
        id != 0,
{
    let key = session_tables::key_of(client);
    let more = clients.insert(client);
    session_tables::key_round_trip(client);
    if m.sessions().contains_key(key) {
        assert(clients.contains(client));
        assert(more =~= clients);
        assert(m.clients().contains_pair(id, key));
    } else {
        assert(!clients.contains(client));
    }
    opening_keeps_pairs(m, m1, client, now, id);
    assert forall|a: SocketAddr|
        #![trigger session_tables::key_of(a)]
        m1.sessions().contains_key(session_tables::key_of(a)) <==> more.contains(a) by {
        session_tables::key_round_trip(a);
        assert(m.sessions().contains_key(session_tables::key_of(a)) <==> clients.contains(a));
    }
    assert(m1.sessions().contains_key(key));
    assert(m1.clients().contains_pair(m1.sessions()[key].0, key));
}

proof fn asked_step(clients: Seq<SocketAddr>, n: int)
    requires
        0 <= n < clients.len(),
    ensures
        asked(clients, n + 1) == asked(clients, n).insert(clients[n]),
        asked(clients, n).finite(),
{
    let front = clients.take(n);
    let longer = clients.take(n + 1);
    vstd::seq_lib::seq_to_set_is_finite(front);
    assert forall|a: SocketAddr| longer.contains(a) <==> front.contains(a) || a == clients[n] by {
        if longer.contains(a) {
            let i = choose|i: int| 0 <= i < longer.len() && longer[i] == a;
            if i < n {
                assert(front[i] == a);
            }
        }
        if front.contains(a) {
            let i = choose|i: int| 0 <= i < n && front[i] == a;
            assert(longer[i] == a);
        }
        assert(longer[n] == clients[n]);
    }
    assert(asked(clients, n + 1) =~= asked(clients, n).insert(clients[n]));
}

proof fn asked_grows(clients: Seq<SocketAddr>, n: int)
    requires
        0 <= n <= clients.len(),
    ensures
        asked(clients, n).finite(),
        asked(clients, n).len() <= asked(clients, clients.len() as int).len(),
    decreases clients.len() - n,
{
    vstd::seq_lib::seq_to_set_is_finite(clients.take(n));
    if n < clients.len() {
        asked_step(clients, n);
        asked_grows(clients, n + 1);
    }
}

/// The client has the session `id`.
pub open spec fn has_session(m: SessionManager, client: SocketAddr, id: SessionId) -> bool {
    let key = session_tables::key_of(client);
    m.sessions().contains_key(key) && m.sessions()[key].0 == id
}

/// A client keeps its session while others ask for theirs.
pub proof fn sessions_stay(
    m: SessionManager,
    m1: SessionManager,
    client: SocketAddr,
    now: Instant,
    id: SessionId,
    other: SocketAddr,
    other_id: SessionId,
)
    requires
        m.opened(m1, client, now, id),
        has_session(m, other, other_id),
    ensures
        has_session(m1, other, other_id),
        has_session(m1, client, id),
{
    session_tables::key_round_trip(client);
    session_tables::key_round_trip(other);
}

/// At every point of a history the manager serves the clients that have asked, and
/// each has the session that it was given.
pub proof fn all_that_asked_are_served(
    states: Seq<SessionManager>,
    clients: Seq<SocketAddr>,
    times: Seq<Instant>,
    ids: Seq<SessionId>,
    n: int,
)
    requires
        history(states, clients, times, ids),
        asked(clients, clients.len() as int).len() < u32::MAX,
        0 <= n <= clients.len(),
    ensures
        serves(states[n], asked(clients, n)),
        forall|i: int| 0 <= i < n ==> (#[trigger] ids[i]) != 0,
        forall|i: int| 0 <= i < n ==> #[trigger] has_session(states[n], clients[i], ids[i]),
    decreases n,
{
    if n == 0 {
        assert(clients.take(0) =~= Seq::empty());
        assert(asked(clients, 0) =~= Set::empty());
        assert(states[0].clients().dom() =~= Set::empty());
    } else {
        let k = n - 1;
        all_that_asked_are_served(states, clients, times, ids, k);
        asked_step(clients, k);
        asked_grows(clients, n);
        let (m, m1) = (states[k], states[n]);
        assert(m.opened(m1, clients[k], times[k], ids[k]));
        one_more_is_served(m, m1, asked(clients, k), clients[k], times[k], ids[k]);
        assert forall|i: int| 0 <= i < n implies #[trigger] has_session(
            m1,
            clients[i],
            ids[i],
        ) by {
            if i < k {
                assert(has_session(m, clients[i], ids[i]));
                sessions_stay(m, m1, clients[k], times[k], ids[k], clients[i], ids[i]);
            }
        }
    }
}

/// Over any history of requests on a new manager, with fewer clients than there are
/// identifiers: no session is named zero, each leads back to its client, two requests
/// get the same session exactly if they come from the same client, and both counters
/// give the number of clients.
pub proof fn sessions_over_any_history(
    states: Seq<SessionManager>,
    clients: Seq<SocketAddr>,
    times: Seq<Instant>,
    ids: Seq<SessionId>,
)
    requires
        history(states, clients, times, ids),
        clients.to_set().len() < u32::MAX,
    ensures
        forall|i: int| 0 <= i < ids.len() ==> (#[trigger] ids[i]) != 0,
        forall|i: int|
            0 <= i < ids.len() ==> states.last().clients().contains_pair(
                #[trigger] ids[i],
                session_tables::key_of(clients[i]),
            ),
        forall|i: int, j: int|
            0 <= i < ids.len() && 0 <= j < ids.len() ==> (#[trigger] ids[i] == #[trigger] ids[j]
                <==> clients[i] == clients[j]),
        states.last().created() == clients.to_set().len(),
        states.last().clients().len() == clients.to_set().len(),
{
    let n = clients.len() as int;
    assert(clients.take(n) =~= clients);
    all_that_asked_are_served(states, clients, times, ids, n);
    let m = states[n];
    assert forall|i: int| 0 <= i < ids.len() implies m.clients().contains_pair(
        #[trigger] ids[i],
        session_tables::key_of(clients[i]),
    ) by {
        let key = session_tables::key_of(clients[i]);
        assert(has_session(m, clients[i], ids[i]));
    }
    assert forall|i: int, j: int| 0 <= i < ids.len() && 0 <= j < ids.len() implies (#[trigger] ids[i]
        == #[trigger] ids[j] <==> clients[i] == clients[j]) by {
        let a = session_tables::key_of(clients[i]);
        let b = session_tables::key_of(clients[j]);
        assert(has_session(m, clients[i], ids[i]) && has_session(m, clients[j], ids[j]));
        assert(m.clients().contains_pair(ids[i], a) && m.clients().contains_pair(ids[j], b));
        session_tables::key_round_trip(clients[i]);
        session_tables::key_round_trip(clients[j]);
    }
}

/// A client that asks for its session keeps it: a cleanup within the timeout after that
/// leaves the session with its address, and the client still has it under the same
/// identifier.
pub proof fn asking_keeps_a_session(
    asked: &mut SessionManager,
    client: SocketAddr,
    at: Instant,
    id: SessionId,
    cleaned: &mut SessionManager,
    now: Instant,
    dropped: usize,
    addr: Option<SocketAddr>,
    again: &mut SessionManager,
    later: Instant,
    same: SessionId,
)
    requires
        old(asked).paired(),
        old(asked).can_open(client),
        call_ensures(SessionManager::get_or_create_session, (asked, client, at), id),
        *old(cleaned) == *final(asked),
        call_ensures(SessionManager::cleanup_expired_sessions, (cleaned, now), dropped),
        now.nanos - at.nanos <= old(asked).timeout().nanos,
        call_ensures(SessionManager::get_client_addr, (&*final(cleaned), id), addr),
        *old(again) == *final(cleaned),
        call_ensures(SessionManager::get_or_create_session, (again, client, later), same),
    ensures
        addr == Some(client),
        same == id,
{
    session_tables::key_round_trip(client);
    survives_if_used(*final(asked), *final(cleaned), client, at, id, now);
}

/// So does a client whose session is marked as used.
pub proof fn marking_keeps_a_session(
    marked: &mut SessionManager,
    client: SocketAddr,
    id: SessionId,
    at: Instant,
    found: bool,
    cleaned: &mut SessionManager,
    now: Instant,
    dropped: usize,
    addr: Option<SocketAddr>,
)
    requires
        old(marked).paired(),
        has_session(*old(marked), client, id),
        call_ensures(SessionManager::touch_session, (marked, id, at), found),
        *old(cleaned) == *final(marked),
        call_ensures(SessionManager::cleanup_expired_sessions, (cleaned, now), dropped),
        now.nanos - at.nanos <= old(marked).timeout().nanos,
        call_ensures(SessionManager::get_client_addr, (&*final(cleaned), id), addr),
    ensures
        found,
        addr == Some(client),
{
    session_tables::key_round_trip(client);
    let key = session_tables::key_of(client);
    assert(old(marked).sessions().contains_key(key));
    assert(old(marked).clients().contains_pair(id, key));
    survives_if_used(*final(marked), *final(cleaned), client, at, id, now);
}

proof fn survives_if_used(
    m: SessionManager,
    after: SessionManager,
    client: SocketAddr,
    at: Instant,
    id: SessionId,
    now: Instant,
)
    requires
        m.paired(),
        has_session(m, client, id),
        m.sessions()[session_tables::key_of(client)].2 == at.nanos,
        m.cleaned(after, now),
        now.nanos - at.nanos <= m.timeout().nanos,
    ensures
        after.clients().contains_pair(id, session_tables::key_of(client)),
        has_session(after, client, id),
{
    let key = session_tables::key_of(client);
    assert(m.sessions().contains_key(key));
    assert(m.clients().contains_pair(id, key));
    if m.expires(id, now) {
        let k = choose|k: session_tables::AddrKey| #[trigger]
            m.sessions().contains_key(k) && m.sessions()[k].0 == id && !session_tables::alive(
                m.sessions()[k],
                now.nanos,
                m.timeout().nanos,
            );
        assert(m.clients().contains_pair(id, k));
    }
    assert(after.sessions().contains_key(key));
    assert(after.sessions()[key] == m.sessions()[key]);
    assert(after.clients().contains_key(id));
}

/// A session that is not used after its client asked for it is dropped by the first
/// cleanup after the timeout, and with it both addresses; at least one session was
/// dropped then.
pub proof fn unused_session_is_dropped(
    asked: &mut SessionManager,
    client: SocketAddr,
    at: Instant,
    id: SessionId,
    cleaned: &mut SessionManager,
    now: Instant,
    dropped: usize,
    addr: Option<SocketAddr>,
    agg: Option<SocketAddr>,
    found: bool,
    touched: &mut SessionManager,
    later: Instant,
)
    requires
        call_ensures(SessionManager::get_or_create_session, (asked, client, at), id),
        *old(cleaned) == *final(asked),
        call_ensures(SessionManager::cleanup_expired_sessions, (cleaned, now), dropped),
        now.nanos - at.nanos > old(asked).timeout().nanos,
        call_ensures(SessionManager::get_client_addr, (&*final(cleaned), id), addr),
        call_ensures(SessionManager::get_aggregation_client, (&*final(cleaned), id), agg),
        *old(touched) == *final(cleaned),
        call_ensures(SessionManager::touch_session, (touched, id, later), found),
    ensures
        addr is None,
        agg is None,
        !found,
{
    let key = session_tables::key_of(client);
    assert(final(asked).sessions().contains_key(key));
    assert(final(asked).expires(id, now));
}

/// The number of dropped sessions is the number of clients that lost theirs: none if every
/// session was used within the timeout.
pub proof fn live_sessions_are_not_dropped(
    m: &mut SessionManager,
    now: Instant,
    dropped: usize,
)
    requires
        old(m).sessions().dom().finite(),
        call_ensures(SessionManager::cleanup_expired_sessions, (m, now), dropped),
        forall|client: SocketAddr|
            #![trigger session_tables::key_of(client)]
            old(m).sessions().contains_key(session_tables::key_of(client)) ==> now.nanos - old(
                m,
            ).sessions()[session_tables::key_of(client)].2 <= old(m).timeout().nanos,
        forall|key: session_tables::AddrKey| #[trigger]
            old(m).sessions().contains_key(key) ==> exists|client: SocketAddr| #[trigger]
                session_tables::key_of(client) == key,
    ensures
        dropped == 0,
        final(m).sessions() == old(m).sessions(),
        final(m).clients() == old(m).clients(),
        final(m).agg_clients() == old(m).agg_clients(),
{
    let before = *old(m);
    let after = *final(m);
    assert forall|key: session_tables::AddrKey| #[trigger]
        before.sessions().contains_key(key) implies session_tables::alive(
        before.sessions()[key],
        now.nanos,
        before.timeout().nanos,
    ) by {
        let client = choose|client: SocketAddr| #[trigger] session_tables::key_of(client) == key;
        assert(now.nanos - before.sessions()[session_tables::key_of(client)].2
            <= before.timeout().nanos);
    }
    assert forall|id: u32| !before.expires(id, now) by {}
    assert(after.sessions() =~= before.sessions());
    assert(after.clients() =~= before.clients());
    assert(after.agg_clients() =~= before.agg_clients());
}

/// Asking again gives the same session; another client gets another one; the address of
/// each session is that of its client; and no session is zero.
pub proof fn each_client_has_its_own_session(
    m1: &mut SessionManager,
    m2: &mut SessionManager,
    a: SocketAddr,
    b: SocketAddr,
    t1: Instant,
    t2: Instant,
    id_a: SessionId,
    id_b: SessionId,
    addr_a: Option<SocketAddr>,
    addr_b: Option<SocketAddr>,
)
    requires
        old(m1).paired(),
        old(m1).numbered(),
        old(m1).last_id() < u32::MAX - 1,
        call_ensures(SessionManager::get_or_create_session, (m1, a, t1), id_a),
        *old(m2) == *final(m1),
        call_ensures(SessionManager::get_or_create_session, (m2, b, t2), id_b),
        call_ensures(SessionManager::get_client_addr, (&*final(m2), id_a), addr_a),
        call_ensures(SessionManager::get_client_addr, (&*final(m2), id_b), addr_b),
    ensures
        id_a == id_b <==> a == b,
        addr_a == Some(a),
        addr_b == Some(b),
{
    session_tables::key_round_trip(a);
    session_tables::key_round_trip(b);
    let ka = session_tables::key_of(a);
    assert(old(m1).can_open(a));
    assert(final(m1).paired());
    assert(final(m1).last_id() < u32::MAX);
    assert(old(m2).can_open(b));
    opening_keeps_pairs(*old(m2), *final(m2), b, t2, id_b);
    assert(final(m1).sessions().contains_key(ka) && final(m1).sessions()[ka].0 == id_a);
    assert(final(m2).sessions().contains_key(ka) && final(m2).sessions()[ka].0 == id_a);
    assert(final(m2).clients().contains_pair(id_a, ka));
    assert(final(m2).clients().contains_pair(id_b, session_tables::key_of(b)));
}

/// The aggregation client that is remembered for a session is the one that is given back
/// for it; other sessions keep theirs, and no client address changes.
pub proof fn aggregation_client_is_remembered(
    m: &mut SessionManager,
    id: SessionId,
    agg: SocketAddr,
    r: bool,
    other: SessionId,
    got: Option<SocketAddr>,
    got_other: Option<SocketAddr>,
    before_other: Option<SocketAddr>,
    addr: Option<SocketAddr>,
    before_addr: Option<SocketAddr>,
)
    requires
        call_ensures(SessionManager::remember_aggregation_client, (m, id, agg), r)
            || call_ensures(SessionManager::set_agg_client_for_session, (m, id, agg), ()),
        call_ensures(SessionManager::get_aggregation_client, (&*final(m), id), got)
            || call_ensures(SessionManager::get_agg_client_for_session, (&*final(m), id), got),
        call_ensures(SessionManager::get_aggregation_client, (&*final(m), other), got_other),
        call_ensures(SessionManager::get_aggregation_client, (&*old(m), other), before_other),
        call_ensures(SessionManager::get_client_addr, (&*final(m), other), addr),
        call_ensures(SessionManager::get_client_addr, (&*old(m), other), before_addr),
    ensures
        got == Some(agg),
        other != id ==> got_other == before_other,
        addr == before_addr,
{
    session_tables::key_round_trip(agg);
}

/// A session that the peer created is remembered with its original client and its
/// aggregation client; other sessions keep theirs. The original client has that session
/// from then on.
pub proof fn server_session_is_remembered(
    m: &mut SessionManager,
    id: SessionId,
    original: SocketAddr,
    agg: SocketAddr,
    now: Instant,
    other: SessionId,
    got: Option<SocketAddr>,
    got_agg: Option<SocketAddr>,
    got_other: Option<SocketAddr>,
    before_other: Option<SocketAddr>,
    asked: &mut SessionManager,
    later: Instant,
    same: SessionId,
)
    requires
        call_ensures(
            SessionManager::remember_session_for_server,
            (m, id, original, agg, now),
            (),
        ),
        call_ensures(SessionManager::get_original_client_addr, (&*final(m), id), got),
        call_ensures(SessionManager::get_aggregation_client, (&*final(m), id), got_agg),
        call_ensures(SessionManager::get_original_client_addr, (&*final(m), other), got_other),
        call_ensures(SessionManager::get_original_client_addr, (&*old(m), other), before_other),
        *old(asked) == *final(m),
        call_ensures(SessionManager::get_or_create_session, (asked, original, later), same),
    ensures
        got == Some(original),
        got_agg == Some(agg),
        other != id ==> got_other == before_other,
        same == id,
{
    session_tables::key_round_trip(original);
    session_tables::key_round_trip(agg);
}

/// A new session counts once, in both counters; asking again counts nothing.
pub proof fn sessions_are_counted(
    m: &mut SessionManager,
    client: SocketAddr,
    now: Instant,
    id: SessionId,
    before: SessionStats,
    after: SessionStats,
)
    requires
        old(m).clients().dom().finite(),
        old(m).can_open(client),
        old(m).created() < u64::MAX,
        call_ensures(SessionManager::stats, (&*old(m),), before),
        call_ensures(SessionManager::get_or_create_session, (m, client, now), id),
        call_ensures(SessionManager::stats, (&*final(m),), after),
    ensures
        ({
            let new = if old(m).sessions().contains_key(session_tables::key_of(client)) {
                0int
            } else {
                1int
            };
            &&& after.total_sessions_created == before.total_sessions_created + new
            &&& after.active_sessions == before.active_sessions + new
        }),
{
}

/// The sessions with an aggregation client are listed with it, each once.
pub proof fn active_sessions_are_listed(
    m: SessionManager,
    active: Vec<(SessionId, SocketAddr)>,
    id: SessionId,
    agg: Option<SocketAddr>,
)
    requires
        call_ensures(SessionManager::get_active_sessions, (&m,), active),
        call_ensures(SessionManager::get_aggregation_client, (&m, id), agg),
    ensures
        agg is Some <==> exists|i: int| 0 <= i < active@.len() && (#[trigger] active@[i]).0 == id,
        forall|i: int| 0 <= i < active@.len() && (#[trigger] active@[i]).0 == id ==> Some(
            active@[i].1,
        ) == agg,
        forall|i: int, j: int|
            0 <= i < j < active@.len() ==> (#[trigger] active@[i]).0 != (#[trigger] active@[j]).0,
{
    let table = m.agg_clients().map_values(
        |key: session_tables::AddrKey| session_tables::addr_of(key),
    );
    if agg is Some {
        assert(table.contains_key(id));
    }
    assert forall|i: int| 0 <= i < active@.len() && (#[trigger] active@[i]).0 == id implies Some(
        active@[i].1,
    ) == agg by {
        assert(table.contains_pair(active@[i].0, active@[i].1));
    }
}

/// The session of a packet depends on its first thirty-two bytes and on nothing else; for a
/// shorter packet it is the session of all its data.
pub proof fn packet_session_depends_on_its_beginning(
    a: &[u8],
    b: &[u8],
    id_a: u64,
    id_b: u64,
    id_data: u64,
)
    requires
        call_ensures(SessionManager::generate_session_from_packet, (a,), id_a),
        call_ensures(SessionManager::generate_session_from_packet, (b,), id_b),
        call_ensures(crate::hashing::data_session_id, (a,), id_data),
    ensures
        a@.len() >= 32 && b@.len() >= 32 && a@.take(32) == b@.take(32) ==> id_a == id_b,
        a@ == b@ ==> id_a == id_b,
        a@.len() <= 32 ==> id_a == id_data,
{
    if a@.len() <= 32 {
        assert(a@.take(a@.len() as int) =~= a@);
    }
}

/// Packets of one flow belong to one session, whichever way it is asked for.
pub proof fn flow_session_is_stable(
    src: SocketAddr,
    dst: SocketAddr,
    protocol: u8,
    a: u64,
    b: u64,
)
    requires
        call_ensures(SessionManager::generate_udp_session_id, (src, dst, protocol), a),
        call_ensures(crate::session::generate_udp_session_id, (src, dst, protocol), b),
    ensures
        a == b,
{
}

/// A header is valid for the address it was made for, whatever its session; and for no
/// address with another port, nor for another IPv4 address if it was made for one.
pub proof fn headers_tell_clients_apart(
    id: SessionId,
    a: SocketAddr,
    b: SocketAddr,
    header: SessionHeader,
    for_a: bool,
    for_b: bool,
)
    requires
        call_ensures(SessionHeader::new, (id, a), header),
        call_ensures(SessionHeader::validate, (&header, a), for_a),
        call_ensures(SessionHeader::validate, (&header, b), for_b),
    ensures
        header.session_id == id,
        for_a,
        a.port_number() != b.port_number() ==> !for_b,
        a is V4 && b is V4 ==> (for_b <==> a == b),
{
    if a is V4 && b is V4 {
        crate::session::ipv4_addresses_are_told_apart(header, a, b);
    }
}

/// An encoded header takes twelve bytes, decodes to itself whatever follows it, and holds
/// session, checksum and port in that order, most significant byte first.
pub proof fn headers_are_encoded(
    header: SessionHeader,
    bytes: [u8; 12],
    data: &[u8],
    decoded: Option<SessionHeader>,
    short: &[u8],
    refused: Option<SessionHeader>,
)
    requires
        call_ensures(SessionHeader::to_bytes, (&header,), bytes),
        data@.len() >= 12,
        data@.take(12) == bytes@,
        call_ensures(SessionHeader::from_bytes, (data,), decoded),
        short@.len() < 12,
        call_ensures(SessionHeader::from_bytes, (short,), refused),
    ensures
        decoded == Some(header),
        refused is None,
        bytes@[0] * 0x100_0000 + bytes@[1] * 0x1_0000 + bytes@[2] * 0x100 + bytes@[3]
            == header.session_id,
        bytes@[4] * 0x100_0000 + bytes@[5] * 0x1_0000 + bytes@[6] * 0x100 + bytes@[7]
            == header.addr_crc32,
        bytes@[8] * 0x100 + bytes@[9] == header.client_port,
        bytes@[10] * 0x100 + bytes@[11] == header.padding,
{
    let tail = data@.skip(12);
    assert(data@ =~= bytes@ + tail);
    crate::session::header_round_trip(header, tail);
    reveal_with_fuel(crate::wire::be_value, 5);
    let b = bytes@;
    crate::session::header_round_trip(header, Seq::empty());
    assert(header.bytes() + Seq::<u8>::empty() =~= b);
    assert(b.subrange(0, 4).drop_last().drop_last().drop_last().drop_last() =~= Seq::empty());
    assert(b.subrange(4, 8).drop_last().drop_last().drop_last().drop_last() =~= Seq::empty());
    assert(b.subrange(8, 10).drop_last().drop_last() =~= Seq::empty());
    assert(b.subrange(10, 12).drop_last().drop_last() =~= Seq::empty());
    crate::wire::pow256_values();
    crate::wire::be_value_bound(b.subrange(0, 4));
    crate::wire::be_value_bound(b.subrange(4, 8));
    crate::wire::be_value_bound(b.subrange(8, 10));
    crate::wire::be_value_bound(b.subrange(10, 12));
}

/// A built packet gives back its header and its payload.
pub proof fn built_packets_are_read(
    id: SessionId,
    client: SocketAddr,
    payload: Vec<u8>,
    builder: SessionPacketBuilder,
    packet: Vec<u8>,
    bytes: &[u8],
    wrapped: Option<SessionPacket>,
    header: Option<SessionHeader>,
    body: &[u8],
    valid: bool,
)
    requires
        call_ensures(SessionPacketBuilder::new, (id, client, payload), builder),
        call_ensures(SessionPacketBuilder::build, (builder,), packet),
        bytes@ == packet@,
        call_ensures(SessionPacket::new, (bytes,), wrapped),
        wrapped matches Some(p) ==> call_ensures(SessionPacket::header, (&p,), header)
            && call_ensures(SessionPacket::payload, (&p,), body),
        header matches Some(h) ==> call_ensures(SessionHeader::validate, (&h, client), valid),
    ensures
        wrapped is Some,
        header matches Some(h) && h.session_id == id,
        body@ == payload@,
        valid,
{
    crate::session::packet_round_trip(builder.head(), payload@);
}

/// A header that is made with a known checksum is the one that is made from the address, and
/// is accepted exactly if checksum and port agree.
pub proof fn checksums_decide(
    id: SessionId,
    client: SocketAddr,
    other: SocketAddr,
    sum: u32,
    header: SessionHeader,
    direct: SessionHeader,
    accepted: bool,
    valid: bool,
)
    requires
        call_ensures(SessionHeader::new, (id, client), direct),
        sum == direct.addr_crc32,
        call_ensures(SessionHeader::with_checksum, (id, sum, client), header),
        call_ensures(SessionHeader::matches, (&header, sum, other), accepted),
        call_ensures(SessionHeader::validate, (&header, client), valid),
    ensures
        header == direct,
        valid,
        accepted <==> other.port_number() == client.port_number(),
{
}

/// A packet with a given header gives back that header, its payload and itself.
pub proof fn given_headers_are_kept(
    header: SessionHeader,
    payload: Vec<u8>,
    builder: SessionPacketBuilder,
    packet: Vec<u8>,
    bytes: &[u8],
    wrapped: Option<SessionPacket>,
    got: Option<SessionHeader>,
    body: &[u8],
    raw: &[u8],
)
    requires
        call_ensures(SessionPacketBuilder::with_header, (header, payload), builder),
        call_ensures(SessionPacketBuilder::build, (builder,), packet),
        bytes@ == packet@,
        call_ensures(SessionPacket::new, (bytes,), wrapped),
        wrapped matches Some(p) ==> call_ensures(SessionPacket::header, (&p,), got)
            && call_ensures(SessionPacket::payload, (&p,), body) && call_ensures(
            SessionPacket::raw_data,
            (&p,),
            raw,
        ),
    ensures
        wrapped is Some,
        got == Some(header),
        body@ == payload@,
        raw@ == packet@,
        packet@.len() == 12 + payload@.len(),
{
    crate::session::packet_round_trip(header, payload@);
    crate::session::header_round_trip(header, payload@);
}

/// The first two clients of a new manager get the sessions two and three, and a cleanup
/// drops and counts those that were not used within the timeout it was made with.
pub proof fn sessions_are_numbered_in_turn(
    timeout: Duration,
    created: SessionManager,
    m1: &mut SessionManager,
    m2: &mut SessionManager,
    m3: &mut SessionManager,
    a: SocketAddr,
    b: SocketAddr,
    t1: Instant,
    t2: Instant,
    t3: Instant,
    id_a: SessionId,
    id_b: SessionId,
    dropped: usize,
)
    requires
        a != b,
        call_ensures(SessionManager::new, (timeout,), created),
        *old(m1) == created,
        call_ensures(SessionManager::get_or_create_session, (m1, a, t1), id_a),
        *old(m2) == *final(m1),
        call_ensures(SessionManager::get_or_create_session, (m2, b, t2), id_b),
        *old(m3) == *final(m2),
        call_ensures(SessionManager::cleanup_expired_sessions, (m3, t3), dropped),
    ensures
        id_a == 2,
        id_b == 3,
        dropped == (if t3.nanos - t1.nanos > timeout.nanos {
            1int
        } else {
            0
        }) + (if t3.nanos - t2.nanos > timeout.nanos {
            1int
        } else {
            0
        }),
{
    session_tables::key_round_trip(a);
    session_tables::key_round_trip(b);
    let ka = session_tables::key_of(a);
    let kb = session_tables::key_of(b);
    assert(ka != kb);
    let before = final(m2).sessions();
    let after = final(m3).sessions();
    let none = Set::<session_tables::AddrKey>::empty();
    assert(before.dom() =~= none.insert(ka).insert(kb));
    assert(before.len() == 2);
    let live_a = t3.nanos - t1.nanos <= timeout.nanos;
    let live_b = t3.nanos - t2.nanos <= timeout.nanos;
    assert(after.contains_key(ka) <==> live_a);
    assert(after.contains_key(kb) <==> live_b);
    if live_a && live_b {
        assert(after.dom() =~= none.insert(ka).insert(kb));
    } else if live_a {
        assert(after.dom() =~= none.insert(ka));
    } else if live_b {
        assert(after.dom() =~= none.insert(kb));
    } else {
        assert(after.dom() =~= none);
    }
}

/// New sessions are numbered one after the other; after the last number comes one.
pub proof fn next_session_has_the_next_number(
    m1: &mut SessionManager,
    m2: &mut SessionManager,
    a: SocketAddr,
    b: SocketAddr,
    t1: Instant,
    t2: Instant,
    id_a: SessionId,
    id_b: SessionId,
)
    requires
        a != b,
        !old(m1).sessions().contains_key(session_tables::key_of(a)),
        !old(m1).sessions().contains_key(session_tables::key_of(b)),
        call_ensures(SessionManager::get_or_create_session, (m1, a, t1), id_a),
        *old(m2) == *final(m1),
        call_ensures(SessionManager::get_or_create_session, (m2, b, t2), id_b),
    ensures
        id_b == (if id_a == u32::MAX {
            1int
        } else {
            id_a + 1
        }),
        id_b != 0,
{
    session_tables::key_round_trip(a);
    session_tables::key_round_trip(b);
}

/// A session that the peer created lasts as any other: its clients are known after a
/// cleanup exactly if that comes within the timeout.
pub proof fn server_session_lasts(
    m1: &mut SessionManager,
    m2: &mut SessionManager,
    id: SessionId,
    original: SocketAddr,
    agg: SocketAddr,
    at: Instant,
    now: Instant,
    dropped: usize,
    got: Option<SocketAddr>,
    got_agg: Option<SocketAddr>,
)
    requires
        old(m1).paired(),
        old(m1).clients().contains_key(id) ==> old(m1).clients()[id] == session_tables::key_of(
            original,
        ),
        call_ensures(
            SessionManager::remember_session_for_server,
            (m1, id, original, agg, at),
            (),
        ),
        *old(m2) == *final(m1),
        call_ensures(SessionManager::cleanup_expired_sessions, (m2, now), dropped),
        call_ensures(SessionManager::get_original_client_addr, (&*final(m2), id), got),
        call_ensures(SessionManager::get_aggregation_client, (&*final(m2), id), got_agg),
    ensures
        now.nanos - at.nanos <= old(m1).timeout().nanos ==> got == Some(original) && got_agg == Some(
            agg,
        ),
        now.nanos - at.nanos > old(m1).timeout().nanos ==> got is None && got_agg is None,
{
    session_tables::key_round_trip(original);
    session_tables::key_round_trip(agg);
    let m = *final(m1);
    let key = session_tables::key_of(original);
    assert(m.sessions().contains_key(key));
    if now.nanos - at.nanos <= m.timeout().nanos {
        survives_if_used(m, *final(m2), original, at, id, now);
        assert(!m.expires(id, now)) by {
            if m.expires(id, now) {
                let k = choose|k: session_tables::AddrKey| #[trigger]
                    m.sessions().contains_key(k) && m.sessions()[k].0 == id
                        && !session_tables::alive(
                        m.sessions()[k],
                        now.nanos,
                        m.timeout().nanos,
                    );
                assert(m.clients().contains_pair(id, k));
                assert(m.clients().contains_pair(id, key));
            }
        }
        assert(final(m2).agg_clients().contains_key(id));
        assert(final(m2).agg_clients()[id] == m.agg_clients()[id]);
    } else {
        assert(m.expires(id, now));
    }
}

/// The time at which a session was created stays, however often its client asks for it or
/// it is marked as used; the time of its last use is that of the last of these.
pub proof fn creation_time_stays(
    m1: &mut SessionManager,
    m2: &mut SessionManager,
    m3: &mut SessionManager,
    client: SocketAddr,
    t1: Instant,
    t2: Instant,
    t3: Instant,
    id: SessionId,
    again: SessionId,
    found: bool,
)
    requires
        old(m1).paired(),
        old(m1).can_open(client),
        !old(m1).sessions().contains_key(session_tables::key_of(client)),
        call_ensures(SessionManager::get_or_create_session, (m1, client, t1), id),
        *old(m2) == *final(m1),
        call_ensures(SessionManager::touch_session, (m2, id, t2), found),
        *old(m3) == *final(m2),
        call_ensures(SessionManager::get_or_create_session, (m3, client, t3), again),
    ensures
        found,
        again == id,
        ({
            let key = session_tables::key_of(client);
            &&& final(m1).sessions()[key] == (id, t1.nanos, t1.nanos)
            &&& final(m2).sessions()[key] == (id, t1.nanos, t2.nanos)
            &&& final(m3).sessions()[key] == (id, t1.nanos, t3.nanos)
        }),
{
    let key = session_tables::key_of(client);
    assert(final(m1).sessions().contains_key(key));
    assert(final(m1).clients().contains_pair(id, key));
}

/// The session of data is the hash of its length, in eight bytes with the least significant
/// first, and of its bytes; that of a flow is the hash of both endpoints and the protocol,
/// each endpoint as version, address and port.
pub proof fn sessions_are_hashes(
    data: &[u8],
    n: u64,
    id: u64,
    len: Vec<u8>,
    src: SocketAddr,
    dst: SocketAddr,
    protocol: u8,
    flow: u64,
    src_port: Vec<u8>,
    dst_port: Vec<u8>,
    four: Vec<u8>,
)
    requires
        data@.len() == n,
        call_ensures(crate::hashing::data_session_id, (data,), id),
        call_ensures(crate::wire::to_le_bytes, (n, 8), len),
        call_ensures(SessionManager::generate_udp_session_id, (src, dst, protocol), flow),
        call_ensures(crate::wire::to_le_bytes, (src.port_number() as u64, 2), src_port),
        call_ensures(crate::wire::to_le_bytes, (dst.port_number() as u64, 2), dst_port),
        call_ensures(crate::wire::to_le_bytes, (0, 8), four),
    ensures
        id == DefaultHasher::spec_finish(seq![len@, data@]),
        match (src.host(), dst.host()) {
            (IpAddr::V4(a), IpAddr::V4(b)) => flow == DefaultHasher::spec_finish(
                seq![
                    four@,
                    crate::wire::be_bytes(a.bits as nat, 4),
                    src_port@,
                    four@,
                    crate::wire::be_bytes(b.bits as nat, 4),
                    dst_port@,
                    seq![protocol],
                ],
            ),
            _ => true,
        },
{
    assert(crate::hashing::hashed_bytes(data@) =~= seq![len@, data@]);
    if let (IpAddr::V4(a), IpAddr::V4(b)) = (src.host(), dst.host()) {
        assert(crate::session::hashed_flow(src, dst, protocol) =~= seq![
            four@,
            crate::wire::be_bytes(a.bits as nat, 4),
            src_port@,
            four@,
            crate::wire::be_bytes(b.bits as nat, 4),
            dst_port@,
            seq![protocol],
        ]);
    }
}

} // verus!
