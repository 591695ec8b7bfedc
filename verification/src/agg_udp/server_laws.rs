//! What callers of the server side can rely on.
use crate::addr::{IpAddr, SocketAddr};
use crate::agg_udp::server;
use crate::agg_udp::server::{ClientLink, Delivery, ServerAggregator, ServerError, ServerSocket};
use crate::time::Instant;
use crate::unordered_cfg::LoadBalanceStrategy;
use crate::vec_map;
use vstd::prelude::*;

verus! {

/// The client has used the backend connection.
pub open spec fn uses(a: ServerAggregator, backend: usize, client: SocketAddr) -> bool {
    vec_map::value(a.users(), backend) matches Some(clients) && clients@.contains(client)
}

/// The client has not sent anything for more than a minute before `now`.
pub open spec fn silent(a: ServerAggregator, client: SocketAddr, now: Instant) -> bool {
    vec_map::value(a.activity(), client) matches Some(last) && now.nanos - last.nanos
        > 60_000_000_000
}

/// The client has sent something less than half a minute before `now`.
pub open spec fn lively(a: ServerAggregator, client: SocketAddr, now: Instant) -> bool {
    vec_map::value(a.activity(), client) matches Some(last) && now.nanos - last.nanos
        < 30_000_000_000
}

/// The address has links.
pub open spec fn links_at(a: ServerAggregator, ip: IpAddr) -> Seq<ClientLink> {
    match vec_map::value(a.clients(), ip) {
        Some(links) => links@,
        None => Seq::empty(),
    }
}

proof fn expired_means_silent(a: ServerAggregator, client: SocketAddr, now: Instant)
    requires
        vec_map::distinct(a.activity()),
    ensures
        server::known_expired(a.activity(), client, now) <==> silent(a, client, now),
{
    let activity = a.activity();
    vec_map::place_is_first(activity, client);
    let p = vec_map::place(activity, client);
    if server::known_expired(activity, client, now) {
        let i = choose|i: int|
            0 <= i < activity.len() && (#[trigger] activity[i]).0 == client
                && server::client_expired(activity[i].1, now);
        if p < i {
            assert(activity[p].0 != activity[i].0);
        }
    }
    if silent(a, client, now) {
        assert(activity[p].0 == client);
    }
}

proof fn remaining_are_those(
    clients: Seq<SocketAddr>,
    activity: Seq<(SocketAddr, Instant)>,
    now: Instant,
    client: SocketAddr,
)
    ensures
        server::remaining(clients, activity, now).contains(client) <==> clients.contains(client)
            && !server::known_expired(activity, client, now),
    decreases clients.len(),
{
    if clients.len() > 0 {
        let rest = clients.drop_last();
        let last = clients.last();
        let front = server::remaining(rest, activity, now);
        remaining_are_those(rest, activity, now, client);
        push_members(rest, last, client);
        assert(rest.push(last) =~= clients);
        push_members(front, last, client);
    }
}

proof fn push_members<A>(s: Seq<A>, last: A, a: A)
    ensures
        s.push(last).contains(a) <==> s.contains(a) || a == last,
{
    let all = s.push(last);
    assert(all[s.len() as int] == last);
    if s.contains(a) {
        let i = choose|i: int| 0 <= i < s.len() && s[i] == a;
        assert(all[i] == a);
    }
    if all.contains(a) {
        let i = choose|i: int| 0 <= i < all.len() && all[i] == a;
        if i < s.len() {
            assert(s[i] == a);
        }
    }
}

proof fn value_of_last<K, V>(s: Seq<(K, V)>, k: K)
    requires
        vec_map::distinct(s),
        s.len() > 0,
    ensures
        vec_map::distinct(s.drop_last()),
        vec_map::value(s, k) == (if s.last().0 == k {
            Some(s.last().1)
        } else {
            vec_map::value(s.drop_last(), k)
        }),
        s.last().0 == k ==> vec_map::value(s.drop_last(), k) is None,
{
    let rest = s.drop_last();
    assert forall|i: int, j: int| 0 <= i < j < rest.len() implies (#[trigger] rest[i]).0 != (
    #[trigger] rest[j]).0 by {
        assert(s[i].0 != s[j].0);
    }
    vec_map::place_is_first(s, k);
    vec_map::place_is_first(rest, k);
    let p = vec_map::place(rest, k);
    if s.last().0 == k {
        if p < rest.len() {
            assert(s[p].0 != s[s.len() - 1].0);
        }
        assert forall|j: int| 0 <= j < s.len() - 1 implies (#[trigger] s[j]).0 != k by {
            assert(s[j].0 != s[s.len() - 1].0);
        }
        vec_map::place_found(s, k, s.len() - 1);
    } else if p < rest.len() {
        assert forall|j: int| 0 <= j < p implies (#[trigger] s[j]).0 != k by {
            assert(rest[j].0 != k);
        }
        vec_map::place_found(s, k, p);
    } else {
        assert forall|j: int| 0 <= j < s.len() implies (#[trigger] s[j]).0 != k by {
            if j < rest.len() {
                assert(rest[j].0 != k);
            }
        }
        vec_map::place_found(s, k, s.len() as int);
    }
}

proof fn cleaned_by_backend(
    before: Seq<(usize, Vec<SocketAddr>)>,
    after: Seq<(usize, Vec<SocketAddr>)>,
    activity: Seq<(SocketAddr, Instant)>,
    now: Instant,
    backend: usize,
)
    requires
        vec_map::distinct(before),
        vec_map::distinct(after),
        server::cleaned(before, after, activity, now),
    ensures
        server::clients_of(after, backend) == server::remaining(
            server::clients_of(before, backend),
            activity,
            now,
        ),
        vec_map::value(before, backend) is None ==> vec_map::value(after, backend) is None,
    decreases before.len(),
{
    if before.len() == 0 {
        assert(before =~= Seq::empty());
        assert(after =~= Seq::empty());
    } else {
        let rest = before.drop_last();
        let left = server::remaining(before.last().1@, activity, now);
        value_of_last(before, backend);
        if left.len() == 0 {
            cleaned_by_backend(rest, after, activity, now, backend);
            if before.last().0 == backend {
                assert(left =~= Seq::empty());
            }
        } else {
            value_of_last(after, backend);
            cleaned_by_backend(rest, after.drop_last(), activity, now, backend);
        }
    }
}

/// A cleanup forgets exactly the clients that have been silent for more than a minute: for
/// every backend connection, a client is among its users afterwards exactly if it was
/// before and is not one of them. Its last activity is forgotten or kept likewise, and its
/// links are kept in any case.
pub proof fn cleanup_forgets_silent_clients_only(
    a: &mut ServerAggregator,
    now: Instant,
    dropped: usize,
    backend: usize,
    client: SocketAddr,
)
    requires
        old(a).wf(),
        call_ensures(ServerAggregator::cleanup_expired_clients, (a, now), dropped),
    ensures
        uses(*final(a), backend, client) <==> uses(*old(a), backend, client) && !silent(
            *old(a),
            client,
            now,
        ),
        vec_map::value(final(a).activity(), client) == (if silent(*old(a), client, now) {
            None
        } else {
            vec_map::value(old(a).activity(), client)
        }),
        links_at(*final(a), client.host()) == links_at(*old(a), client.host()),
        final(a).backends() == old(a).backends(),
{
    expired_means_silent(*old(a), client, now);
    cleaned_by_backend(old(a).users(), final(a).users(), old(a).activity(), now, backend);
    let before = server::clients_of(old(a).users(), backend);
    remaining_are_those(before, old(a).activity(), now, client);
    unexpired_value(old(a).activity(), now, client);
}

proof fn unexpired_value(
    activity: Seq<(SocketAddr, Instant)>,
    now: Instant,
    client: SocketAddr,
)
    requires
        vec_map::distinct(activity),
    ensures
        vec_map::distinct(server::unexpired(activity, now)),
        vec_map::value(server::unexpired(activity, now), client) == (match vec_map::value(
            activity,
            client,
        ) {
            Some(last) => if now.nanos - last.nanos > 60_000_000_000 {
                None
            } else {
                Some(last)
            },
            None => None,
        }),
    decreases activity.len(),
{
    let kept = server::unexpired(activity, now);
    if activity.len() == 0 {
        assert(activity =~= Seq::empty());
    } else {
        let rest = activity.drop_last();
        let front = server::unexpired(rest, now);
        value_of_last(activity, client);
        unexpired_value(rest, now, client);
        if !server::client_expired(activity.last().1, now) {
            let last = activity.last();
            value_of_last(activity, last.0);
            unexpired_value(rest, now, last.0);
            assert(kept.drop_last() =~= front);
            vec_map::place_is_first(front, last.0);
            assert forall|i: int, j: int| 0 <= i < j < kept.len() implies (#[trigger] kept[i]).0
                != (#[trigger] kept[j]).0 by {
                if j < front.len() {
                    assert(front[i].0 != front[j].0);
                } else {
                    assert(front[i].0 != last.0);
                }
            }
            value_of_last(kept, client);
        }
    }
}

/// The number of dropped clients is the number of those that have been silent for more
/// than a minute.
pub proof fn silent_clients_are_counted(a: &mut ServerAggregator, now: Instant, dropped: usize)
    requires
        old(a).wf(),
        call_ensures(ServerAggregator::cleanup_expired_clients, (a, now), dropped),
    ensures
        dropped == old(a).activity().filter(
            |e: (SocketAddr, Instant)| now.nanos - e.1.nanos > 60_000_000_000,
        ).len(),
{
    count_expired(old(a).activity(), now);
}

proof fn count_expired(activity: Seq<(SocketAddr, Instant)>, now: Instant)
    ensures
        server::unexpired(activity, now).len() + activity.filter(
            |e: (SocketAddr, Instant)| now.nanos - e.1.nanos > 60_000_000_000,
        ).len() == activity.len(),
    decreases activity.len(),
{
    reveal(Seq::filter);
    if activity.len() > 0 {
        count_expired(activity.drop_last(), now);
    }
}

proof fn still_active(
    clients: Seq<SocketAddr>,
    activity: Seq<(SocketAddr, Instant)>,
    now: Instant,
    at: Instant,
)
    requires
        vec_map::distinct(activity),
        now.nanos <= at.nanos,
    ensures
        server::active_clients(
            server::remaining(clients, activity, now),
            server::unexpired(activity, now),
            at,
        ) == server::active_clients(clients, activity, at),
    decreases clients.len(),
{
    if clients.len() > 0 {
        let rest = clients.drop_last();
        let last = clients.last();
        let left = server::remaining(clients, activity, now);
        let front = server::remaining(rest, activity, now);
        still_active(rest, activity, now, at);
        unexpired_value(activity, now, last);
        if server::active(activity, last, at) {
            server::active_clients_do_not_expire(activity, last, at);
            if server::known_expired(activity, last, now) {
                let i = choose|i: int|
                    0 <= i < activity.len() && (#[trigger] activity[i]).0 == last
                        && server::client_expired(activity[i].1, now);
                assert(server::client_expired(activity[i].1, at));
            }
        }
        if !server::known_expired(activity, last, now) {
            assert(left.drop_last() =~= front);
        }
    }
}

/// A cleanup takes nothing away from active clients: then and later every backend
/// connection has the same active clients, and a response goes to the same places, as
/// without the cleanup.
pub proof fn cleanup_changes_no_response(
    a: &mut ServerAggregator,
    now: Instant,
    dropped: usize,
    backend: usize,
    from: SocketAddr,
    target: SocketAddr,
    at: Instant,
    index: u64,
    before: Vec<SocketAddr>,
    after: Vec<SocketAddr>,
    routes: (Vec<Delivery>, u64),
    same: (Vec<Delivery>, u64),
)
    requires
        old(a).wf(),
        call_ensures(ServerAggregator::cleanup_expired_clients, (a, now), dropped),
        now.nanos <= at.nanos,
        call_ensures(ServerAggregator::active_clients_of, (&*old(a), backend, at), before),
        call_ensures(ServerAggregator::active_clients_of, (&*final(a), backend, at), after),
        call_ensures(
            ServerAggregator::route_response,
            (&*old(a), backend, from, target, at, index),
            routes,
        ),
        call_ensures(
            ServerAggregator::route_response,
            (&*final(a), backend, from, target, at, index),
            same,
        ),
    ensures
        before@ == after@,
        routes.0@ == same.0@,
        routes.1 == same.1,
{
    cleaned_by_backend(old(a).users(), final(a).users(), old(a).activity(), now, backend);
    still_active(server::clients_of(old(a).users(), backend), old(a).activity(), now, at);
}

/// The active clients of a backend connection are exactly those that have used it and have
/// sent something less than half a minute before, each once.
pub proof fn active_clients_are_lively(
    a: ServerAggregator,
    backend: usize,
    now: Instant,
    active: Vec<SocketAddr>,
    client: SocketAddr,
)
    requires
        a.wf(),
        call_ensures(ServerAggregator::active_clients_of, (&a, backend, now), active),
    ensures
        active@.contains(client) <==> uses(a, backend, client) && lively(a, client, now),
        active@.no_duplicates(),
{
    let clients = server::clients_of(a.users(), backend);
    server::served_clients_are_active(clients, a.activity(), now, client);
    vec_map::place_is_first(a.users(), backend);
    if vec_map::has(a.users(), backend) {
        assert(a.users()[vec_map::place(a.users(), backend)].1@.no_duplicates());
    }
    active_once(clients, a.activity(), now);
}

proof fn active_once(
    clients: Seq<SocketAddr>,
    activity: Seq<(SocketAddr, Instant)>,
    now: Instant,
)
    requires
        clients.no_duplicates(),
    ensures
        server::active_clients(clients, activity, now).no_duplicates(),
    decreases clients.len(),
{
    if clients.len() > 0 {
        let rest = clients.drop_last();
        let last = clients.last();
        active_once(rest, activity, now);
        server::served_clients_are_active(rest, activity, now, last);
        if rest.contains(last) {
            let i = choose|i: int| 0 <= i < rest.len() && rest[i] == last;
            assert(clients[i] == clients[clients.len() - 1]);
        }
    }
}

/// A response of the target that comes in on a backend connection goes to exactly those
/// active clients of the connection that have links, to each once and over one of its own
/// links. A response from anywhere else goes nowhere.
pub proof fn responses_reach_active_clients(
    a: ServerAggregator,
    backend: usize,
    from: SocketAddr,
    target: SocketAddr,
    now: Instant,
    index: u64,
    r: (Vec<Delivery>, u64),
    client: SocketAddr,
)
    requires
        a.wf(),
        call_ensures(
            ServerAggregator::route_response,
            (&a, backend, from, target, now, index),
            r,
        ),
    ensures
        (exists|i: int| 0 <= i < r.0@.len() && (#[trigger] r.0@[i]).client == client) <==> from
            == target && uses(a, backend, client) && lively(a, client, now) && links_at(
            a,
            client.host(),
        ).len() > 0,
        forall|i: int, j: int|
            0 <= i < j < r.0@.len() ==> (#[trigger] r.0@[i]).client != (#[trigger] r.0@[j]).client,
        forall|i: int|
            0 <= i < r.0@.len() ==> exists|k: int|
                0 <= k < links_at(a, (#[trigger] r.0@[i]).client.host()).len() && (
                #[trigger] links_at(a, r.0@[i].client.host())[k]).1.id == r.0@[i].socket,
        index + r.0@.len() <= u64::MAX ==> r.1 == index + r.0@.len(),
{
    let all = server::clients_of(a.users(), backend);
    let active = server::active_clients(all, a.activity(), now);
    server::served_clients_are_active(all, a.activity(), now, client);
    vec_map::place_is_first(a.users(), backend);
    if vec_map::has(a.users(), backend) {
        assert(a.users()[vec_map::place(a.users(), backend)].1@.no_duplicates());
    }
    active_once(all, a.activity(), now);
    if from == target {
        let out = server::deliveries(active, a.clients(), index);
        delivered_once(active, a.clients(), index);
        assert forall|i: int| 0 <= i < out.len() implies exists|k: int|
            0 <= k < links_at(a, (#[trigger] out[i]).client.host()).len() && (#[trigger] links_at(
                a,
                out[i].client.host(),
            )[k]).1.id == out[i].socket by {
            server::delivery_uses_own_link(active, a.clients(), index, i);
            let links = server::links_of(a.clients(), out[i].client.host());
            let k = choose|k: int| 0 <= k < links.len() && (#[trigger] links[k]).1.id == out[i].socket;
            assert(links_at(a, out[i].client.host())[k].1.id == out[i].socket);
        }
        if exists|i: int| 0 <= i < out.len() && (#[trigger] out[i]).client == client {
            let i = choose|i: int| 0 <= i < out.len() && (#[trigger] out[i]).client == client;
            server::delivery_uses_own_link(active, a.clients(), index, i);
        }
        if active.contains(client) && links_at(a, client.host()).len() > 0 {
            let j = choose|j: int| 0 <= j < active.len() && active[j] == client;
            server::every_linked_client_is_served(active, a.clients(), index, j);
        }
    }
}

proof fn delivered_once(
    clients: Seq<SocketAddr>,
    connections: Seq<(IpAddr, Vec<ClientLink>)>,
    index: u64,
)
    requires
        clients.no_duplicates(),
    ensures
        forall|i: int, j: int|
            0 <= i < j < server::deliveries(clients, connections, index).len() ==> (
            #[trigger] server::deliveries(clients, connections, index)[i]).client != (
            #[trigger] server::deliveries(clients, connections, index)[j]).client,
    decreases clients.len(),
{
    if clients.len() > 0 {
        let rest = clients.drop_last();
        let before = server::deliveries(rest, connections, index);
        let all = server::deliveries(clients, connections, index);
        delivered_once(rest, connections, index);
        assert forall|i: int, j: int| 0 <= i < j < all.len() implies (#[trigger] all[i]).client != (
        #[trigger] all[j]).client by {
            if j < before.len() {
                assert(before[i].client != before[j].client);
            } else {
                server::delivery_uses_own_link(rest, connections, index, i);
                let k = choose|k: int| 0 <= k < rest.len() && rest[k] == all[i].client;
                assert(clients[k] != clients[clients.len() - 1]);
            }
        }
    }
}

/// A client that is registered, and whose data was then sent over a backend connection,
/// gets the next response on that connection, over its own link, for half a minute.
pub proof fn registered_client_gets_its_response(
    registered: &mut ServerAggregator,
    client: SocketAddr,
    socket: ServerSocket,
    links: Option<usize>,
    recorded: &mut ServerAggregator,
    backend: usize,
    at: Instant,
    target: SocketAddr,
    now: Instant,
    index: u64,
    r: (Vec<Delivery>, u64),
)
    requires
        old(registered).wf(),
        call_ensures(
            ServerAggregator::register_client_connection,
            (registered, client, socket),
            links,
        ),
        *old(recorded) == *final(registered),
        call_ensures(ServerAggregator::record_backend_send, (recorded, backend, client, at), ()),
        now.nanos - at.nanos < 30_000_000_000,
        call_ensures(
            ServerAggregator::route_response,
            (&*final(recorded), backend, target, target, now, index),
            r,
        ),
    ensures
        exists|i: int|
            0 <= i < r.0@.len() && (#[trigger] r.0@[i]).client == client && (links_at(
                *old(registered),
                client.host(),
            ).len() == 0 ==> r.0@[i].socket == socket.id),
{
    let a = *final(recorded);
    vec_map::with_stores(old(recorded).activity(), client, at);
    recorded_users(*old(recorded), a, backend, client);
    assert(links_at(a, client.host()).len() > 0) by {
        let before = server::links_of(old(registered).clients(), client.host());
        if server::registered(before, socket) {
            let i = choose|i: int|
                0 <= i < before.len() && (#[trigger] before[i]).1.local_addr == socket.local_addr;
        }
    }
    responses_reach_active_clients(a, backend, target, target, now, index, r, client);
    let i = choose|i: int| 0 <= i < r.0@.len() && (#[trigger] r.0@[i]).client == client;
    let mine = links_at(a, r.0@[i].client.host());
    let k = choose|k: int| 0 <= k < mine.len() && (#[trigger] mine[k]).1.id == r.0@[i].socket;
}

proof fn recorded_users(
    before: ServerAggregator,
    after: ServerAggregator,
    backend: usize,
    client: SocketAddr,
)
    requires
        server::clients_of(after.users(), backend) == (if server::clients_of(
            before.users(),
            backend,
        ).contains(client) {
            server::clients_of(before.users(), backend)
        } else {
            server::clients_of(before.users(), backend).push(client)
        }),
    ensures
        uses(after, backend, client),
        forall|other: SocketAddr|
            other != client ==> (#[trigger] uses(after, backend, other) <==> uses(
                before,
                backend,
                other,
            )),
{
    let old_users = server::clients_of(before.users(), backend);
    push_members(old_users, client, client);
    assert(server::clients_of(after.users(), backend).contains(client));
    assert forall|other: SocketAddr| other != client implies (#[trigger] uses(after, backend, other)
        <==> uses(before, backend, other)) by {
        push_members(old_users, client, other);
    }
}

/// Recording data of a client makes it a user of that backend connection, active from then
/// on; it takes no use away from anyone, and makes no one else a user of anything.
pub proof fn recording_is_for_one_client(
    a: &mut ServerAggregator,
    backend: usize,
    client: SocketAddr,
    now: Instant,
    b: usize,
    other: SocketAddr,
)
    requires
        old(a).wf(),
        call_ensures(ServerAggregator::record_backend_send, (a, backend, client, now), ()),
    ensures
        uses(*final(a), b, other) <==> uses(*old(a), b, other) || b == backend && other == client,
        vec_map::value(final(a).activity(), other) == (if other == client {
            Some(now)
        } else {
            vec_map::value(old(a).activity(), other)
        }),
        links_at(*final(a), other.host()) == links_at(*old(a), other.host()),
{
    vec_map::with_stores(old(a).activity(), client, now);
    recorded_users(*old(a), *final(a), backend, client);
    if b != backend {
        assert(vec_map::value(final(a).users(), b) == vec_map::value(old(a).users(), b));
    }
}

/// Registering a link adds it to the links of its address, unless a link on a socket with
/// the same local address is there already; the answer is how many there are now, if it
/// was added. No other address gains or loses a link, and no client becomes a user of a
/// backend connection.
pub proof fn registering_adds_one_link(
    a: &mut ServerAggregator,
    client: SocketAddr,
    socket: ServerSocket,
    links: Option<usize>,
    ip: IpAddr,
    b: usize,
    other: SocketAddr,
)
    requires
        old(a).wf(),
        call_ensures(
            ServerAggregator::register_client_connection,
            (a, client, socket),
            links,
        ),
    ensures
        ({
            let before = links_at(*old(a), client.host());
            let after = links_at(*final(a), client.host());
            if exists|i: int|
                0 <= i < before.len() && (#[trigger] before[i]).1.local_addr == socket.local_addr {
                after == before && links is None
            } else {
                after == before.push((client, socket)) && (links matches Some(n) && (before.len()
                    < usize::MAX ==> n == before.len() + 1))
            }
        }),
        ip != client.host() ==> links_at(*final(a), ip) == links_at(*old(a), ip),
        uses(*final(a), b, other) <==> uses(*old(a), b, other),
{
    if ip != client.host() {
        assert(vec_map::value(final(a).clients(), ip) == vec_map::value(old(a).clients(), ip));
    }
}

/// A response to one client goes out over one of its own links, or is refused if it has
/// none; the next response to it goes over the next of its links, the first following the
/// last, as long as the counter does not start again from zero.
pub proof fn client_links_take_turns(
    a1: &mut ServerAggregator,
    a2: &mut ServerAggregator,
    client: SocketAddr,
    first: Result<Delivery, ServerError>,
    second: Result<Delivery, ServerError>,
)
    requires
        old(a1).wf(),
        old(a1).index() < usize::MAX,
        old(a1).index() < u64::MAX,
        call_ensures(ServerAggregator::send_response_to_client, (a1, client), first),
        *old(a2) == *final(a1),
        call_ensures(ServerAggregator::send_response_to_client, (a2, client), second),
    ensures
        ({
            let links = links_at(*old(a1), client.host());
            match (first, second) {
                (Err(e), Err(f)) => links.len() == 0 && e is NoClientConnection
                    && f is NoClientConnection,
                (Ok(d), Ok(next)) => {
                    &&& d.client == client
                    &&& next.client == client
                    &&& exists|i: int|
                        0 <= i < links.len() && d.socket == (#[trigger] links[i]).1.id && next.socket
                            == links[following(i, links.len())].1.id
                },
                _ => false,
            }
        }),
{
    let links = links_at(*old(a1), client.host());
    let index = old(a1).index();
    if links.len() > 0 {
        let i = next_place(index as int, links.len() as int);
        assert(final(a1).index() == index + 1);
        assert(server::links_of(old(a1).clients(), client.host()) == links);
        assert(first->Ok_0.socket == links[i].1.id);
        assert(second->Ok_0.socket == links[following(i, links.len())].1.id);
    }
}

/// The place after `i` among `n`; the first follows the last.
pub open spec fn following(i: int, n: nat) -> int {
    if i + 1 < n {
        i + 1
    } else {
        0
    }
}

pub(crate) proof fn next_place(index: int, n: int) -> (i: int)
    requires
        0 < n,
        0 <= index,
    ensures
        0 <= i < n,
        i == index % n,
        (index + 1) % n == (if i + 1 < n {
            i + 1
        } else {
            0
        }),
{
    let i = index % n;
    let q = index / n;
    vstd::arithmetic::div_mod::lemma_mod_bound(index, n);
    vstd::arithmetic::div_mod::lemma_fundamental_div_mod(index, n);
    assert(n * q == q * n && (q + 1) * n == q * n + n) by (nonlinear_arith);
    if i + 1 < n {
        vstd::arithmetic::div_mod::lemma_fundamental_div_mod_converse(index + 1, n, q, i + 1);
    } else {
        vstd::arithmetic::div_mod::lemma_fundamental_div_mod_converse(index + 1, n, q + 1, 0);
    }
    i
}

/// The deliveries of a response follow the order of the active clients.
pub proof fn deliveries_follow_the_clients(
    a: ServerAggregator,
    backend: usize,
    target: SocketAddr,
    now: Instant,
    index: u64,
    active: Vec<SocketAddr>,
    r: (Vec<Delivery>, u64),
    i: int,
    j: int,
)
    requires
        a.wf(),
        call_ensures(ServerAggregator::active_clients_of, (&a, backend, now), active),
        call_ensures(
            ServerAggregator::route_response,
            (&a, backend, target, target, now, index),
            r,
        ),
        0 <= i < j < r.0@.len(),
    ensures
        exists|p: int, q: int|
            0 <= p < q < active@.len() && #[trigger] active@[p] == r.0@[i].client && #[trigger] active@[q]
                == r.0@[j].client,
{
    delivered_in_order(active@, a.clients(), index, i, j);
}

/// The deliveries of a response take turns: each goes over the link of its client at the
/// place that the counter has reached, which is one further for every delivery, as long as
/// the counter does not start again from zero.
pub proof fn deliveries_take_turns(
    a: ServerAggregator,
    backend: usize,
    target: SocketAddr,
    now: Instant,
    index: u64,
    r: (Vec<Delivery>, u64),
    i: int,
)
    requires
        a.wf(),
        call_ensures(
            ServerAggregator::route_response,
            (&a, backend, target, target, now, index),
            r,
        ),
        0 <= i < r.0@.len(),
        index + r.0@.len() <= usize::MAX,
        index + r.0@.len() <= u64::MAX,
    ensures
        ({
            let links = links_at(a, r.0@[i].client.host());
            r.0@[i].socket == links[(index + i) % links.len() as int].1.id
        }),
{
    let clients = server::active_clients(
        server::clients_of(a.users(), backend),
        a.activity(),
        now,
    );
    delivered_in_turn(clients, a.clients(), index, i);
}

proof fn delivered_in_turn(
    clients: Seq<SocketAddr>,
    connections: Seq<(IpAddr, Vec<ClientLink>)>,
    index: u64,
    i: int,
)
    requires
        0 <= i < server::deliveries(clients, connections, index).len(),
        index + i <= usize::MAX,
        index + i <= u64::MAX,
    ensures
        ({
            let d = server::deliveries(clients, connections, index)[i];
            let links = server::links_of(connections, d.client.host());
            d.socket == links[(index + i) % links.len() as int].1.id
        }),
    decreases clients.len(),
{
    let rest = clients.drop_last();
    let before = server::deliveries(rest, connections, index);
    if i < before.len() {
        delivered_in_turn(rest, connections, index, i);
    }
}

proof fn delivered_in_order(
    clients: Seq<SocketAddr>,
    connections: Seq<(IpAddr, Vec<ClientLink>)>,
    index: u64,
    i: int,
    j: int,
)
    requires
        0 <= i < j < server::deliveries(clients, connections, index).len(),
    ensures
        ({
            let out = server::deliveries(clients, connections, index);
            exists|p: int, q: int|
                0 <= p < q < clients.len() && #[trigger] clients[p] == out[i].client && #[trigger] clients[q]
                    == out[j].client
        }),
    decreases clients.len(),
{
    let rest = clients.drop_last();
    let before = server::deliveries(rest, connections, index);
    let out = server::deliveries(clients, connections, index);
    if j < before.len() {
        delivered_in_order(rest, connections, index, i, j);
        let (p, q) = choose|p: int, q: int|
            0 <= p < q < rest.len() && #[trigger] rest[p] == before[i].client && #[trigger] rest[q]
                == before[j].client;
        assert(clients[p] == out[i].client && clients[q] == out[j].client);
    } else {
        server::delivery_uses_own_link(rest, connections, index, i);
        let p = choose|p: int| 0 <= p < rest.len() && rest[p] == before[i].client;
        assert(clients[p] == out[i].client);
        assert(clients[clients.len() - 1] == out[j].client);
    }
}

/// The first response of a new aggregator goes over the link that was registered first.
pub proof fn first_response_takes_first_link(
    strategy: LoadBalanceStrategy,
    a: ServerAggregator,
    r1: &mut ServerAggregator,
    r2: &mut ServerAggregator,
    sent: &mut ServerAggregator,
    client: SocketAddr,
    s1: ServerSocket,
    s2: ServerSocket,
    n1: Option<usize>,
    n2: Option<usize>,
    delivery: Result<Delivery, ServerError>,
)
    requires
        call_ensures(ServerAggregator::new, (strategy,), a),
        *old(r1) == a,
        call_ensures(ServerAggregator::register_client_connection, (r1, client, s1), n1),
        *old(r2) == *final(r1),
        call_ensures(ServerAggregator::register_client_connection, (r2, client, s2), n2),
        *old(sent) == *final(r2),
        call_ensures(ServerAggregator::send_response_to_client, (sent, client), delivery),
    ensures
        delivery == Ok::<Delivery, ServerError>(Delivery { client, socket: s1.id }),
{
    let first = links_at(*final(r1), client.host());
    let second = links_at(*final(r2), client.host());
    assert(first.len() == 1 && first[0].1 == s1);
    assert(second.len() >= 1 && second[0].1 == s1);
    assert(old(sent).index() == 0);
    assert(old(sent).index() as usize as int == 0);
    vstd::arithmetic::div_mod::lemma_small_mod(0, second.len());
}

/// The first data of a new aggregator goes over its first connection to the backend.
pub proof fn first_data_takes_first_connection(
    strategy: LoadBalanceStrategy,
    a: ServerAggregator,
    b1: &mut ServerAggregator,
    b2: &mut ServerAggregator,
    sent: &mut ServerAggregator,
    backend: Result<usize, ServerError>,
)
    requires
        call_ensures(ServerAggregator::new, (strategy,), a),
        *old(b1) == a,
        call_ensures(ServerAggregator::add_backend_connection, (b1,), ()),
        *old(b2) == *final(b1),
        call_ensures(ServerAggregator::add_backend_connection, (b2,), ()),
        *old(sent) == *final(b2),
        call_ensures(ServerAggregator::send_to_backend, (sent,), backend),
    ensures
        backend == Ok::<usize, ServerError>(0),
{
    let n = old(sent).backends();
    let index = old(sent).index();
    assert(n == 2 && index == 0);
    assert(index as usize as int == 0);
    vstd::arithmetic::div_mod::lemma_small_mod(0, n as nat);
    match backend {
        Ok(b) => {
            assert(b == index as usize as int % n as int);
        },
        Err(_) => {
            assert(n == 0);
        },
    }
}

/// Data for the backend goes over one of the connections, or is refused if there is none;
/// the next data goes over the next connection, the first following the last, as long as
/// the counter does not start again from zero. A connection that is added takes part.
pub proof fn backend_connections_take_turns(
    a1: &mut ServerAggregator,
    a2: &mut ServerAggregator,
    first: Result<usize, ServerError>,
    second: Result<usize, ServerError>,
)
    requires
        old(a1).wf(),
        old(a1).index() < usize::MAX,
        old(a1).index() < u64::MAX,
        call_ensures(ServerAggregator::send_to_backend, (a1,), first),
        *old(a2) == *final(a1),
        call_ensures(ServerAggregator::send_to_backend, (a2,), second),
    ensures
        if old(a1).backends() == 0 {
            first == Err::<usize, ServerError>(ServerError::NoBackend) && second == Err::<
                usize,
                ServerError,
            >(ServerError::NoBackend)
        } else {
            first matches Ok(b) && b < old(a1).backends() && (second matches Ok(next) && next
                == following(b as int, old(a1).backends() as nat))
        },
{
    if old(a1).backends() > 0 {
        let i = next_place(old(a1).index() as int, old(a1).backends() as int);
    }
}

/// A connection to the backend that is added counts, and nothing else changes.
pub proof fn added_connection_counts(
    a: &mut ServerAggregator,
    before: usize,
    after: usize,
    b: usize,
    client: SocketAddr,
)
    requires
        call_ensures(ServerAggregator::backend_count, (&*old(a),), before),
        call_ensures(ServerAggregator::add_backend_connection, (a,), ()),
        call_ensures(ServerAggregator::backend_count, (&*final(a),), after),
    ensures
        after == before + 1,
        uses(*final(a), b, client) <==> uses(*old(a), b, client),
        links_at(*final(a), client.host()) == links_at(*old(a), client.host()),
{
}

/// The pool tells how many clients use each backend connection that is in use.
pub proof fn pool_counts_users(
    a: ServerAggregator,
    pool: Vec<(usize, usize)>,
    i: int,
)
    requires
        a.wf(),
        call_ensures(ServerAggregator::backend_pool, (&a,), pool),
        0 <= i < pool@.len(),
    ensures
        pool@.len() == a.users().len(),
        vec_map::value(a.users(), pool@[i].0) matches Some(clients) && clients@.len() == pool@[i].1,
{
    let users = a.users();
    vec_map::place_is_first(users, users[i].0);
    let p = vec_map::place(users, users[i].0);
    if p < i {
        assert(users[p].0 != users[i].0);
    }
}

/// An address uses the backend connections that the clients behind its links have used, and
/// they are listed in ascending order, each once.
pub proof fn usage_follows_links(
    a: ServerAggregator,
    ip: IpAddr,
    used: Vec<usize>,
    backend: usize,
)
    requires
        a.wf(),
        call_ensures(ServerAggregator::backend_usage, (&a, ip), used),
    ensures
        used@.contains(backend) <==> exists|i: int|
            0 <= i < links_at(a, ip).len() && uses(a, backend, (#[trigger] links_at(a, ip)[i]).0),
        forall|i: int, j: int| 0 <= i < j < used@.len() ==> used@[i] < used@[j],
{
    let links = links_at(a, ip);
    if a.uses(ip, backend) {
        let i = choose|i: int|
            0 <= i < links.len() && server::clients_of(a.users(), backend).contains(
                (#[trigger] links[i]).0,
            );
        assert(uses(a, backend, links[i].0) || !vec_map::has(a.users(), backend));
    }
    if exists|i: int| 0 <= i < links.len() && uses(a, backend, (#[trigger] links[i]).0) {
        let i = choose|i: int| 0 <= i < links.len() && uses(a, backend, (#[trigger] links[i]).0);
        assert(server::clients_of(a.users(), backend).contains(
            server::links_of(a.clients(), ip)[i].0,
        ));
        assert(a.uses(ip, backend));
    }
}

/// A response that went out counts with its bytes; one that failed is reported with the
/// error and counts nothing.
pub proof fn responses_are_counted(
    a: &mut ServerAggregator,
    outcome: Result<usize, String>,
    r: Result<(), ServerError>,
)
    requires
        call_ensures(ServerAggregator::complete_response, (a, outcome), r),
        old(a).responses().0 < u64::MAX,
    ensures
        match outcome {
            Ok(bytes) => r is Ok && final(a).responses().0 == old(a).responses().0 + 1 && (old(
                a,
            ).responses().1 + bytes <= u64::MAX ==> final(a).responses().1 == old(a).responses().1
                + bytes),
            Err(error) => (r matches Err(ServerError::ResponseSendFailed(e)) && e@ == error@)
                && final(a).responses() == old(a).responses(),
        },
{
}

/// The connection to the backend that is chosen is the one over which data then goes.
pub proof fn chosen_backend_is_used(
    a1: &mut ServerAggregator,
    a2: &mut ServerAggregator,
    chosen: Option<usize>,
    used: Result<usize, ServerError>,
)
    requires
        old(a1).wf(),
        *old(a1) == *old(a2),
        call_ensures(ServerAggregator::select_backend_connection, (a1,), chosen),
        call_ensures(ServerAggregator::send_to_backend, (a2,), used),
    ensures
        match (chosen, used) {
            (Some(b), Ok(c)) => b == c && b < old(a1).backends(),
            (None, Err(e)) => e is NoBackend && old(a1).backends() == 0,
            _ => false,
        },
        final(a1).index() == final(a2).index(),
{
}

/// The link of a client that is chosen is the one over which a response to it then goes.
pub proof fn chosen_link_is_used(
    a1: &mut ServerAggregator,
    a2: &mut ServerAggregator,
    client: SocketAddr,
    chosen: Option<usize>,
    used: Result<Delivery, ServerError>,
)
    requires
        old(a1).wf(),
        *old(a1) == *old(a2),
        call_ensures(ServerAggregator::select_client_connection, (a1, client), chosen),
        call_ensures(ServerAggregator::send_response_to_client, (a2, client), used),
    ensures
        match (chosen, used) {
            (Some(socket), Ok(d)) => d.socket == socket && d.client == client,
            (None, Err(e)) => e is NoClientConnection && links_at(*old(a1), client.host()).len()
                == 0,
            _ => false,
        },
        final(a1).index() == final(a2).index(),
{
}

/// A link that was registered is listed under the address of its client.
pub proof fn registered_links_are_listed(
    a: ServerAggregator,
    i: usize,
    entry: Option<(IpAddr, &Vec<ClientLink>)>,
)
    requires
        a.wf(),
        call_ensures(ServerAggregator::client_at, (&a, i), entry),
    ensures
        entry matches Some((ip, links)) ==> links@ == links_at(a, ip),
        entry is None <==> i >= a.clients().len(),
{
    if let Some((ip, links)) = entry {
        vec_map::place_found(a.clients(), ip, i as int);
    }
}

/// A new aggregator knows no clients and no connections to the backend, so nothing can be
/// sent either way.
pub proof fn new_aggregator_is_empty(
    strategy: LoadBalanceStrategy,
    created: ServerAggregator,
    a1: &mut ServerAggregator,
    a2: &mut ServerAggregator,
    client: SocketAddr,
    response: Result<Delivery, ServerError>,
    request: Result<usize, ServerError>,
    n: usize,
)
    requires
        call_ensures(ServerAggregator::new, (strategy,), created),
        call_ensures(ServerAggregator::backend_count, (&created,), n),
        *old(a1) == created,
        *old(a2) == created,
        call_ensures(ServerAggregator::send_response_to_client, (a1, client), response),
        call_ensures(ServerAggregator::send_to_backend, (a2,), request),
    ensures
        n == 0,
        response matches Err(e) && e is NoClientConnection,
        request matches Err(e) && e is NoBackend,
        created.strategy() == strategy,
        created.responses() == (0u64, 0u64),
{
    vec_map::place_is_first(created.clients(), client.host());
}

} // verus!
