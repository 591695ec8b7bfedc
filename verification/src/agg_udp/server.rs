//! Server side: clients with several links, and several connections to the
//! backend.
use crate::addr::{IpAddr, SocketAddr};
use crate::link_state;
use crate::time::Instant;
use crate::turns;
use crate::unordered_cfg::LoadBalanceStrategy;
use crate::vec_map;
use crate::vec_map::VecMap;
use vstd::prelude::*;
use vstd::string::*;

verus! {

/// A socket on which packets of clients come in.
#[derive(Debug, Clone, Copy, PartialEq, Eq)]
pub struct ServerSocket {
    /// Number of the socket.
    pub id: usize,
    /// Its local address, if it is known.
    pub local_addr: Option<SocketAddr>,
}

/// A link of a client: the address it comes from and the socket it comes in on.
pub type ClientLink = (SocketAddr, ServerSocket);

/// Why data could not be forwarded.
#[derive(Debug, Clone)]
pub enum ServerError {
    /// There is no connection to the backend.
    NoBackend,
    /// Sending to the backend failed.
    BackendSendFailed(String),
    /// The client has no connection.
    NoClientConnection,
    /// Sending to the client failed.
    ResponseSendFailed(String),
}

impl ServerError {
    /// Returns the text shown for this error.
    pub fn message(&self) -> (s: String)
        ensures
            s@ == (match *self {
                ServerError::NoBackend => "No available backend connections"@,
                ServerError::BackendSendFailed(error) => "Backend send failed: "@ + error@,
                ServerError::NoClientConnection => "No available connections for client"@,
                ServerError::ResponseSendFailed(error) => "Response send failed: "@ + error@,
            }),
    {
        match self {
            ServerError::NoBackend => "No available backend connections".to_owned(),
            ServerError::BackendSendFailed(error) => "Backend send failed: ".to_owned().concat(
                error.as_str(),
            ),
            ServerError::NoClientConnection => "No available connections for client".to_owned(),
            ServerError::ResponseSendFailed(error) => "Response send failed: ".to_owned().concat(
                error.as_str(),
            ),
        }
    }
}

/// A response on its way: the client it goes to and the socket it goes out on.
#[derive(Debug, Clone, Copy, PartialEq, Eq)]
pub struct Delivery {
    /// The client.
    pub client: SocketAddr,
    /// Number of the socket.
    pub socket: usize,
}

/// The link at the turn `index`.
pub open spec fn in_turn<T>(s: Seq<T>, index: u64) -> T {
    s[index as usize as int % s.len() as int]
}

/// The links of a client address.
pub open spec fn links_of(
    clients: Seq<(IpAddr, Vec<ClientLink>)>,
    ip: IpAddr,
) -> Seq<ClientLink> {
    match vec_map::value(clients, ip) {
        Some(links) => links@,
        None => Seq::empty(),
    }
}

/// A link on a socket with the same local address is known.
pub open spec fn registered(links: Seq<ClientLink>, socket: ServerSocket) -> bool {
    exists|i: int| 0 <= i < links.len() && (#[trigger] links[i]).1.local_addr == socket.local_addr
}

/// The clients that use a backend connection.
pub open spec fn clients_of(backends: Seq<(usize, Vec<SocketAddr>)>, backend: usize) -> Seq<
    SocketAddr,
> {
    match vec_map::value(backends, backend) {
        Some(clients) => clients@,
        None => Seq::empty(),
    }
}

/// The client has sent something less than half a minute before `now`.
pub open spec fn active(
    activity: Seq<(SocketAddr, Instant)>,
    client: SocketAddr,
    now: Instant,
) -> bool {
    vec_map::value(activity, client) matches Some(last) && last.nanos + 30_000_000_000 > now.nanos
}

/// The active clients among `clients`, in their order.
pub open spec fn active_clients(
    clients: Seq<SocketAddr>,
    activity: Seq<(SocketAddr, Instant)>,
    now: Instant,
) -> Seq<SocketAddr>
    decreases clients.len(),
{
    if clients.len() == 0 {
        Seq::empty()
    } else {
        let front = active_clients(clients.drop_last(), activity, now);
        if active(activity, clients.last(), now) {
            front.push(clients.last())
        } else {
            front
        }
    }
}

/// The deliveries of a response to `clients`: one for each client that has
/// links, over the link whose turn it is.
pub open spec fn deliveries(
    clients: Seq<SocketAddr>,
    connections: Seq<(IpAddr, Vec<ClientLink>)>,
    index: u64,
) -> Seq<Delivery>
    decreases clients.len(),
{
    if clients.len() == 0 {
        Seq::empty()
    } else {
        let front = deliveries(clients.drop_last(), connections, index);
        let links = links_of(connections, clients.last().host());
        if links.len() == 0 {
            front
        } else {
            front.push(
                Delivery {
                    client: clients.last(),
                    socket: in_turn(
                        links,
                        link_state::counted_up(index, front.len()) as u64,
                    ).1.id,
                },
            )
        }
    }
}

/// A client that has not sent anything for more than a minute.
pub open spec fn client_expired(last: Instant, now: Instant) -> bool {
    last.nanos + 60_000_000_000 < now.nanos
}

/// The clients that have not expired.
pub open spec fn unexpired(activity: Seq<(SocketAddr, Instant)>, now: Instant) -> Seq<
    (SocketAddr, Instant),
>
    decreases activity.len(),
{
    if activity.len() == 0 {
        Seq::empty()
    } else {
        let front = unexpired(activity.drop_last(), now);
        if client_expired(activity.last().1, now) {
            front
        } else {
            front.push(activity.last())
        }
    }
}

/// A client whose last activity is known and lies more than a minute back.
pub open spec fn known_expired(
    activity: Seq<(SocketAddr, Instant)>,
    client: SocketAddr,
    now: Instant,
) -> bool {
    exists|i: int|
        0 <= i < activity.len() && (#[trigger] activity[i]).0 == client && client_expired(
            activity[i].1,
            now,
        )
}

/// The clients that have not expired, in their order.
pub open spec fn remaining(
    clients: Seq<SocketAddr>,
    activity: Seq<(SocketAddr, Instant)>,
    now: Instant,
) -> Seq<SocketAddr>
    decreases clients.len(),
{
    if clients.len() == 0 {
        Seq::empty()
    } else {
        let front = remaining(clients.drop_last(), activity, now);
        if known_expired(activity, clients.last(), now) {
            front
        } else {
            front.push(clients.last())
        }
    }
}

/// `after` holds what is left of `before`: each backend connection with the
/// clients that have not expired, and without those that have none.
pub open spec fn cleaned(
    before: Seq<(usize, Vec<SocketAddr>)>,
    after: Seq<(usize, Vec<SocketAddr>)>,
    activity: Seq<(SocketAddr, Instant)>,
    now: Instant,
) -> bool
    decreases before.len(),
{
    if before.len() == 0 {
        after.len() == 0
    } else {
        let left = remaining(before.last().1@, activity, now);
        if left.len() == 0 {
            cleaned(before.drop_last(), after, activity, now)
        } else {
            &&& after.len() > 0
            &&& after.last().0 == before.last().0
            &&& after.last().1@ == left
            &&& cleaned(before.drop_last(), after.drop_last(), activity, now)
        }
    }
}

/// Coordinates the links of all clients and the connections to the backend.
#[derive(Debug, Clone)]
pub struct ServerAggregator {
    client_connections: VecMap<IpAddr, Vec<ClientLink>>,
    backend_connections: usize,
    strategy: LoadBalanceStrategy,
    round_robin_index: u64,
    response_packets_sent: u64,
    response_bytes_sent: u64,
    backend_to_clients_map: VecMap<usize, Vec<SocketAddr>>,
    client_last_activity: VecMap<SocketAddr, Instant>,
}

impl ServerAggregator {
    /// The links of each client address.
    pub closed spec fn clients(&self) -> Seq<(IpAddr, Vec<ClientLink>)> {
        self.client_connections@
    }

    /// Number of connections to the backend.
    pub closed spec fn backends(&self) -> usize {
        self.backend_connections
    }

    /// The strategy in use.
    pub closed spec fn strategy(&self) -> LoadBalanceStrategy {
        self.strategy
    }

    /// How many choices were made, modulo the number of values of a counter.
    pub closed spec fn index(&self) -> u64 {
        self.round_robin_index
    }

    /// Response packets and bytes sent, modulo the number of values of a counter.
    pub closed spec fn responses(&self) -> (u64, u64) {
        (self.response_packets_sent, self.response_bytes_sent)
    }

    /// The clients that used each backend connection.
    pub closed spec fn users(&self) -> Seq<(usize, Vec<SocketAddr>)> {
        self.backend_to_clients_map@
    }

    /// The last activity of each client.
    pub closed spec fn activity(&self) -> Seq<(SocketAddr, Instant)> {
        self.client_last_activity@
    }

    /// No key occurs twice, and no client twice for a backend connection.
    pub open spec fn wf(&self) -> bool {
        &&& vec_map::distinct(self.clients())
        &&& vec_map::distinct(self.users())
        &&& vec_map::distinct(self.activity())
        &&& forall|i: int|
            0 <= i < self.users().len() ==> (#[trigger] self.users()[i]).1@.no_duplicates()
    }

    /// Creates an aggregator without clients and backend connections.
    pub fn new(strategy: LoadBalanceStrategy) -> (a: ServerAggregator)
        ensures
            a.wf(),
            a.clients().len() == 0,
            a.backends() == 0,
            a.strategy() == strategy,
            a.index() == 0,
            a.responses() == (0u64, 0u64),
            a.users().len() == 0,
            a.activity().len() == 0,
    {
        ServerAggregator {
            client_connections: VecMap::new(),
            backend_connections: 0,
            strategy,
            round_robin_index: 0,
            response_packets_sent: 0,
            response_bytes_sent: 0,
            backend_to_clients_map: VecMap::new(),
            client_last_activity: VecMap::new(),
        }
    }

    /// Nothing but the links of clients may differ.
    pub open spec fn same_but_clients(&self, other: ServerAggregator) -> bool {
        &&& self.backends() == other.backends()
        &&& self.strategy() == other.strategy()
        &&& self.index() == other.index()
        &&& self.responses() == other.responses()
        &&& self.users() == other.users()
        &&& self.activity() == other.activity()
    }

    /// Registers a link of a client. Links are kept by the IP address of the
    /// client; a socket with the same local address counts once. Returns the
    /// number of links of that address if the link is new.
    pub fn register_client_connection(
        &mut self,
        client_addr: SocketAddr,
        server_socket: ServerSocket,
    ) -> (links: Option<usize>)
        requires
            old(self).wf(),
        ensures
            final(self).wf(),
            final(self).same_but_clients(*old(self)),
            ({
                let before = links_of(old(self).clients(), client_addr.host());
                let after = links_of(final(self).clients(), client_addr.host());
                if registered(before, server_socket) {
                    after == before && links is None
                } else {
                    after == before.push((client_addr, server_socket)) && links == Some(
                        after.len() as usize,
                    )
                }
            }),
            vec_map::has(final(self).clients(), client_addr.host()),
            forall|ip: IpAddr|
                ip != client_addr.host() ==> #[trigger] vec_map::value(final(self).clients(), ip)
                    == vec_map::value(old(self).clients(), ip),
    {
        let ip = client_addr.ip();
        let ghost before = self.client_connections@;
        proof {
            vec_map::place_is_first(before, ip);
        }
        if !self.client_connections.contains_key(&ip) {
            let none: Vec<ClientLink> = Vec::new();
            proof {
                vec_map::with_stores(before, ip, none);
            }
            self.client_connections.insert(ip, none);
        }
        let ghost middle = self.client_connections@;
        proof {
            vec_map::place_is_first(middle, ip);
            assert(vec_map::has(middle, ip)) by {
                if !vec_map::has(middle, ip) {
                    assert(vec_map::value(middle, ip) is None);
                }
            }
            assert(links_of(middle, ip) =~= links_of(before, ip));
        }
        let i: usize = self.client_connections.position(&ip);
        let links = self.client_connections.value_at_mut(i);
        if has_socket(links, server_socket) {
            assert(self.client_connections@ =~= middle);
            return None;
        }
        links.push((client_addr, server_socket));
        let n: usize = links.len();
        proof {
            let entry = self.client_connections@[i as int].1;
            vec_map::with_stores(middle, ip, entry);
            assert(self.client_connections@ =~= vec_map::with(middle, ip, entry));
        }
        Some(n)
    }

    /// Takes note of a new connection to the backend.
    pub fn add_backend_connection(&mut self)
        requires
            old(self).wf(),
            old(self).backends() < usize::MAX,
        ensures
            final(self).wf(),
            final(self).backends() == old(self).backends() + 1,
            final(self).clients() == old(self).clients(),
            final(self).strategy() == old(self).strategy(),
            final(self).index() == old(self).index(),
            final(self).responses() == old(self).responses(),
            final(self).users() == old(self).users(),
            final(self).activity() == old(self).activity(),
    {
        self.backend_connections = self.backend_connections + 1;
    }

    /// Nothing but the turn may differ, which is the next one if `chosen`.
    pub open spec fn turned(&self, after: ServerAggregator, chosen: bool) -> bool {
        &&& after.clients() == self.clients()
        &&& after.backends() == self.backends()
        &&& after.strategy() == self.strategy()
        &&& after.responses() == self.responses()
        &&& after.users() == self.users()
        &&& after.activity() == self.activity()
        &&& after.index() == (if chosen {
            link_state::counted_up(self.index(), 1)
        } else {
            self.index() as nat
        })
    }

    fn next_turn(&mut self) -> (index: usize)
        ensures
            index == old(self).index() as usize,
            old(self).turned(*final(self), true),
    {
        let index: usize = self.round_robin_index as usize;
        self.round_robin_index = self.round_robin_index.wrapping_add(1);
        index
    }

    /// Chooses the socket over which something is sent to a client. All
    /// strategies take the links of the client in turn.
    pub fn select_client_connection(&mut self, client_addr: SocketAddr) -> (socket: Option<usize>)
        requires
            old(self).wf(),
        ensures
            final(self).wf(),
            ({
                let links = links_of(old(self).clients(), client_addr.host());
                &&& old(self).turned(*final(self), links.len() > 0)
                &&& socket == (if links.len() == 0 {
                    None
                } else {
                    Some(in_turn(links, old(self).index()).1.id)
                })
            }),
    {
        let i: usize = self.client_connections.position(&client_addr.ip());
        if i >= self.client_connections.len() {
            return None;
        }
        let n: usize = self.client_connections.value_at(i).len();
        if n == 0 {
            return None;
        }
        let index: usize = self.next_turn();
        Some(self.client_connections.value_at(i)[index % n].1.id)
    }

    /// Chooses a connection to the backend. All strategies take them in turn.
    pub fn select_backend_connection(&mut self) -> (backend: Option<usize>)
        requires
            old(self).wf(),
        ensures
            final(self).wf(),
            old(self).turned(*final(self), old(self).backends() > 0),
            match backend {
                Some(b) => old(self).backends() > 0 && b == old(self).index() as usize as int
                    % old(self).backends() as int && b < old(self).backends(),
                None => old(self).backends() == 0,
            },
    {
        if self.backend_connections == 0 {
            return None;
        }
        let n: usize = self.backend_connections;
        let index: usize = self.next_turn();
        Some(index % n)
    }

    /// Takes note of how sending a response ended.
    pub fn complete_response(&mut self, outcome: Result<usize, String>) -> (r: Result<
        (),
        ServerError,
    >)
        requires
            old(self).wf(),
        ensures
            final(self).wf(),
            final(self).clients() == old(self).clients(),
            final(self).backends() == old(self).backends(),
            final(self).strategy() == old(self).strategy(),
            final(self).index() == old(self).index(),
            final(self).users() == old(self).users(),
            final(self).activity() == old(self).activity(),
            match outcome {
                Ok(bytes) => {
                    &&& r is Ok
                    &&& final(self).responses().0 == link_state::counted_up(
                        old(self).responses().0,
                        1,
                    )
                    &&& final(self).responses().1 == link_state::counted_up(
                        old(self).responses().1,
                        bytes as nat,
                    )
                },
                Err(error) => {
                    &&& r matches Err(ServerError::ResponseSendFailed(e)) && e@ == error@
                    &&& final(self).responses() == old(self).responses()
                },
            },
    {
        match outcome {
            Ok(bytes) => {
                self.response_packets_sent = self.response_packets_sent.wrapping_add(1);
                self.response_bytes_sent = self.response_bytes_sent.wrapping_add(bytes as u64);
                Ok(())
            },
            Err(error) => Err(ServerError::ResponseSendFailed(error)),
        }
    }

    /// Chooses the socket over which a response is sent to a client.
    pub fn send_response_to_client(&mut self, client_addr: SocketAddr) -> (r: Result<
        Delivery,
        ServerError,
    >)
        requires
            old(self).wf(),
        ensures
            final(self).wf(),
            ({
                let links = links_of(old(self).clients(), client_addr.host());
                &&& old(self).turned(*final(self), links.len() > 0)
                &&& match r {
                    Ok(delivery) => links.len() > 0 && delivery == (Delivery {
                        client: client_addr,
                        socket: in_turn(links, old(self).index()).1.id,
                    }),
                    Err(e) => links.len() == 0 && e is NoClientConnection,
                }
            }),
    {
        match self.select_client_connection(client_addr) {
            Some(socket) => Ok(Delivery { client: client_addr, socket }),
            None => Err(ServerError::NoClientConnection),
        }
    }

    /// Chooses the connection over which data goes to the backend.
    pub fn send_to_backend(&mut self) -> (r: Result<usize, ServerError>)
        requires
            old(self).wf(),
        ensures
            final(self).wf(),
            old(self).turned(*final(self), old(self).backends() > 0),
            match r {
                Ok(b) => old(self).backends() > 0 && b == old(self).index() as usize as int % old(self).backends() as int && b < old(self).backends(),
                Err(e) => old(self).backends() == 0 && e is NoBackend,
            },
    {
        match self.select_backend_connection() {
            Some(b) => Ok(b),
            None => Err(ServerError::NoBackend),
        }
    }

    /// Takes note that data of a client was sent over a backend connection: the
    /// client uses that connection and is active.
    pub fn record_backend_send(&mut self, backend: usize, client_addr: SocketAddr, now: Instant)
        requires
            old(self).wf(),
        ensures
            final(self).wf(),
            final(self).clients() == old(self).clients(),
            final(self).backends() == old(self).backends(),
            final(self).strategy() == old(self).strategy(),
            final(self).index() == old(self).index(),
            final(self).responses() == old(self).responses(),
            final(self).activity() == vec_map::with(old(self).activity(), client_addr, now),
            clients_of(final(self).users(), backend) == (if clients_of(
                old(self).users(),
                backend,
            ).contains(client_addr) {
                clients_of(old(self).users(), backend)
            } else {
                clients_of(old(self).users(), backend).push(client_addr)
            }),
            forall|b: usize|
                b != backend ==> #[trigger] vec_map::value(final(self).users(), b)
                    == vec_map::value(old(self).users(), b),
    {
        let ghost before = self.backend_to_clients_map@;
        proof {
            vec_map::place_is_first(before, backend);
            vec_map::with_stores(self.client_last_activity@, client_addr, now);
        }
        if !self.backend_to_clients_map.contains_key(&backend) {
            let none: Vec<SocketAddr> = Vec::new();
            proof {
                vec_map::with_stores(before, backend, none);
            }
            self.backend_to_clients_map.insert(backend, none);
        }
        let ghost middle = self.backend_to_clients_map@;
        proof {
            vec_map::place_is_first(middle, backend);
            assert(vec_map::has(middle, backend)) by {
                if !vec_map::has(middle, backend) {
                    assert(vec_map::value(middle, backend) is None);
                }
            }
            assert(clients_of(middle, backend) =~= clients_of(before, backend));
            assert forall|i: int| 0 <= i < middle.len() implies (
            #[trigger] middle[i]).1@.no_duplicates() by {
                if middle != before && i == before.len() {
                } else {
                    assert(middle[i] == before[i]);
                }
            }
        }
        let i: usize = self.backend_to_clients_map.position(&backend);
        let clients = self.backend_to_clients_map.value_at_mut(i);
        join_client(clients, client_addr);
        proof {
            let entry = self.backend_to_clients_map@[i as int].1;
            vec_map::with_stores(middle, backend, entry);
            assert(self.backend_to_clients_map@ =~= vec_map::with(middle, backend, entry));
            assert forall|j: int| 0 <= j < self.backend_to_clients_map@.len() implies (
            #[trigger] self.backend_to_clients_map@[j]).1@.no_duplicates() by {
                if j != i {
                    assert(self.backend_to_clients_map@[j] == middle[j]);
                } else {
                    assert(middle[i as int].1@.no_duplicates());
                }
            }
        }
        self.client_last_activity.insert(client_addr, now);
    }

    /// Returns where a response of the backend goes that came in on a backend
    /// connection: to every active client of that connection, over the link
    /// whose turn it is by the counter of the connection, `index`. A response
    /// from anywhere but the target goes nowhere.
    pub fn route_response(
        &self,
        backend: usize,
        from: SocketAddr,
        target: SocketAddr,
        now: Instant,
        index: u64,
    ) -> (r: (Vec<Delivery>, u64))
        requires
            self.wf(),
        ensures
            r.0@ == (if from == target {
                deliveries(
                    active_clients(clients_of(self.users(), backend), self.activity(), now),
                    self.clients(),
                    index,
                )
            } else {
                Seq::empty()
            }),
            r.1 == link_state::counted_up(index, r.0@.len()),
    {
        let mut out: Vec<Delivery> = Vec::new();
        let mut turn: u64 = index;
        if from != target {
            return (out, turn);
        }
        let clients = self.active_clients_of(backend, now);
        let ghost connections = self.client_connections@;
        let mut i: usize = 0;
        assert(clients@.take(0) =~= Seq::empty());
        while i < clients.len()
            invariant
                i <= clients@.len(),
                connections == self.client_connections@,
                out@ == deliveries(clients@.take(i as int), connections, index),
                out@.len() <= i,
                turn == link_state::counted_up(index, out@.len()),
            decreases clients@.len() - i,
        {
            let client = clients[i];
            assert(clients@.take(i + 1).drop_last() =~= clients@.take(i as int));
            if let Some(links) = self.client_connections.get(&client.ip()) {
                if links.len() > 0 {
                    let at: usize = (turn as usize) % links.len();
                    out.push(Delivery { client, socket: links[at].1.id });
                    turn = turn.wrapping_add(1);
                }
            }
            i = i + 1;
        }
        assert(clients@.take(i as int) =~= clients@);
        (out, turn)
    }

    /// Returns the active clients of a backend connection.
    pub fn active_clients_of(&self, backend: usize, now: Instant) -> (clients: Vec<SocketAddr>)
        ensures
            clients@ == active_clients(clients_of(self.users(), backend), self.activity(), now),
    {
        let mut active: Vec<SocketAddr> = Vec::new();
        let i: usize = self.backend_to_clients_map.position(&backend);
        if i >= self.backend_to_clients_map.len() {
            return active;
        }
        let all = self.backend_to_clients_map.value_at(i);
        let ghost activity = self.client_last_activity@;
        let mut j: usize = 0;
        assert(all@.take(0) =~= Seq::empty());
        while j < all.len()
            invariant
                j <= all@.len(),
                activity == self.client_last_activity@,
                active@ == active_clients(all@.take(j as int), activity, now),
            decreases all@.len() - j,
        {
            let client = all[j];
            assert(all@.take(j + 1).drop_last() =~= all@.take(j as int));
            if let Some(last) = self.client_last_activity.get(&client) {
                if last.nanos as u128 + 30_000_000_000 > now.nanos as u128 {
                    active.push(client);
                }
            }
            j = j + 1;
        }
        assert(all@.take(j as int) =~= all@);
        active
    }
}

impl ServerAggregator {
    /// Drops what belongs to clients that have not sent anything for more than
    /// a minute. Returns how many there were.
    pub fn cleanup_expired_clients(&mut self, now: Instant) -> (dropped: usize)
        requires
            old(self).wf(),
        ensures
            final(self).wf(),
            final(self).clients() == old(self).clients(),
            final(self).backends() == old(self).backends(),
            final(self).strategy() == old(self).strategy(),
            final(self).index() == old(self).index(),
            final(self).responses() == old(self).responses(),
            final(self).activity() == unexpired(old(self).activity(), now),
            cleaned(old(self).users(), final(self).users(), old(self).activity(), now),
            dropped + final(self).activity().len() == old(self).activity().len(),
    {
        let ghost activity = self.client_last_activity@;
        let ghost users = self.backend_to_clients_map@;
        let mut kept: VecMap<SocketAddr, Instant> = VecMap::new();
        let n: usize = self.client_last_activity.len();
        let mut i: usize = 0;
        assert(activity.take(0) =~= Seq::empty());
        while i < n
            invariant
                i <= n,
                n == activity.len(),
                activity == self.client_last_activity@,
                self == old(self),
                vec_map::distinct(activity),
                kept.wf(),
                kept@ == unexpired(activity.take(i as int), now),
                kept@.len() <= i,
            decreases n - i,
        {
            let client = *self.client_last_activity.key_at(i);
            let last = *self.client_last_activity.value_at(i);
            proof {
                assert(activity.take(i + 1).drop_last() =~= activity.take(i as int));
                unexpired_members(activity.take(i as int), now);
                vec_map::place_is_first(kept@, client);
                if vec_map::has(kept@, client) {
                    let p = vec_map::place(kept@, client);
                    assert(activity.take(i as int).contains(kept@[p]));
                    let k = choose|k: int| 0 <= k < i && activity.take(i as int)[k] == kept@[p];
                    assert(activity[k].0 == activity[i as int].0);
                }
            }
            if !is_client_expired(last, now) {
                kept.insert(client, last);
            }
            i = i + 1;
        }
        assert(activity.take(n as int) =~= activity);
        let mut left: VecMap<usize, Vec<SocketAddr>> = VecMap::new();
        let m: usize = self.backend_to_clients_map.len();
        let mut j: usize = 0;
        assert(users.take(0) =~= Seq::empty());
        while j < m
            invariant
                j <= m,
                m == users.len(),
                users == self.backend_to_clients_map@,
                activity == self.client_last_activity@,
                self == old(self),
                self.wf(),
                left.wf(),
                cleaned(users.take(j as int), left@, activity, now),
                forall|k: int|
                    0 <= k < left@.len() ==> (#[trigger] left@[k]).1@.no_duplicates() && exists|
                        l: int,
                    | 0 <= l < j && (#[trigger] users[l]).0 == left@[k].0,
            decreases m - j,
        {
            let backend: usize = *self.backend_to_clients_map.key_at(j);
            let clients = self.remaining_clients(self.backend_to_clients_map.value_at(j), now);
            let ghost before = left@;
            proof {
                assert(users.take(j + 1).drop_last() =~= users.take(j as int));
                assert(users[j as int].1@.no_duplicates());
                vec_map::place_is_first(before, backend);
                if vec_map::has(before, backend) {
                    let p = vec_map::place(before, backend);
                    let l = choose|l: int| 0 <= l < j && (#[trigger] users[l]).0 == before[p].0;
                    assert(users[l].0 != users[j as int].0);
                }
            }
            if clients.len() > 0 {
                left.insert(backend, clients);
                proof {
                    assert(left@ == before.push((backend, clients)));
                    assert(left@.drop_last() =~= before);
                    assert forall|k: int| 0 <= k < left@.len() implies (
                    #[trigger] left@[k]).1@.no_duplicates() && exists|l: int|
                        0 <= l < j + 1 && (#[trigger] users[l]).0 == left@[k].0 by {
                        if k < before.len() {
                            assert(before[k] == left@[k]);
                            let l = choose|l: int|
                                0 <= l < j && (#[trigger] users[l]).0 == before[k].0;
                            assert(users[l].0 == left@[k].0);
                        } else {
                            assert(users[j as int].0 == left@[k].0);
                        }
                    }
                }
            }
            proof {
                assert forall|k: int| 0 <= k < left@.len() implies exists|l: int|
                    0 <= l < j + 1 && (#[trigger] users[l]).0 == (#[trigger] left@[k]).0 by {
                    if k < before.len() {
                        assert(before[k] == left@[k]);
                        let l = choose|l: int| 0 <= l < j && (#[trigger] users[l]).0 == before[k].0;
                        assert(users[l].0 == left@[k].0);
                    }
                }
            }
            j = j + 1;
        }
        assert(users.take(m as int) =~= users);
        let dropped: usize = n - kept.len();
        self.client_last_activity = kept;
        self.backend_to_clients_map = left;
        dropped
    }

    fn remaining_clients(&self, clients: &Vec<SocketAddr>, now: Instant) -> (left: Vec<SocketAddr>)
        ensures
            left@ == remaining(clients@, self.activity(), now),
            clients@.no_duplicates() ==> left@.no_duplicates(),
    {
        let mut left: Vec<SocketAddr> = Vec::new();
        let ghost activity = self.client_last_activity@;
        let mut i: usize = 0;
        assert(clients@.take(0) =~= Seq::empty());
        while i < clients.len()
            invariant
                i <= clients@.len(),
                activity == self.client_last_activity@,
                left@ == remaining(clients@.take(i as int), activity, now),
            decreases clients@.len() - i,
        {
            assert(clients@.take(i + 1).drop_last() =~= clients@.take(i as int));
            if !self.expired_client(clients[i], now) {
                left.push(clients[i]);
            }
            i = i + 1;
        }
        assert(clients@.take(i as int) =~= clients@);
        proof {
            if clients@.no_duplicates() {
                remaining_members(clients@, activity, now);
            }
        }
        left
    }

    fn expired_client(&self, client: SocketAddr, now: Instant) -> (r: bool)
        ensures
            r == known_expired(self.activity(), client, now),
    {
        let n: usize = self.client_last_activity.len();
        let mut i: usize = 0;
        while i < n
            invariant
                i <= n,
                n == self.client_last_activity@.len(),
                forall|j: int|
                    0 <= j < i ==> !((#[trigger] self.client_last_activity@[j]).0 == client
                        && client_expired(self.client_last_activity@[j].1, now)),
            decreases n - i,
        {
            if *self.client_last_activity.key_at(i) == client && is_client_expired(
                *self.client_last_activity.value_at(i),
                now,
            ) {
                assert(self.client_last_activity@[i as int].0 == client);
                return true;
            }
            i = i + 1;
        }
        false
    }

    /// One of the links comes from an address that uses the backend connection.
    pub open spec fn uses(&self, ip: IpAddr, backend: usize) -> bool {
        exists|i: int|
            0 <= i < links_of(self.clients(), ip).len() && clients_of(
                self.users(),
                backend,
            ).contains((#[trigger] links_of(self.clients(), ip)[i]).0)
    }

    /// Returns the backend connections that a client address uses, in ascending
    /// order.
    pub fn backend_usage(&self, ip: IpAddr) -> (used: Vec<usize>)
        requires
            self.wf(),
        ensures
            forall|i: int, j: int| 0 <= i < j < used@.len() ==> used@[i] < used@[j],
            forall|b: usize| #[trigger]
                used@.contains(b) <==> vec_map::has(self.users(), b) && self.uses(ip, b),
    {
        let mut used: Vec<usize> = Vec::new();
        let ghost users = self.backend_to_clients_map@;
        let n: usize = self.backend_to_clients_map.len();
        let mut i: usize = 0;
        while i < n
            invariant
                i <= n,
                n == users.len(),
                users == self.backend_to_clients_map@,
                self.wf(),
                forall|x: int, y: int| 0 <= x < y < used@.len() ==> used@[x] < used@[y],
                forall|b: usize| #[trigger]
                    used@.contains(b) <==> exists|k: int|
                        0 <= k < i && (#[trigger] users[k]).0 == b && self.uses(ip, b),
            decreases n - i,
        {
            let backend: usize = *self.backend_to_clients_map.key_at(i);
            let ghost before = used@;
            proof {
                vec_map::place_found(users, backend, i as int);
            }
            if self.link_uses(ip, self.backend_to_clients_map.value_at(i)) {
                insert_sorted(&mut used, backend);
            }
            proof {
                assert forall|b: usize| #[trigger] used@.contains(b) <==> exists|k: int|
                    0 <= k < i + 1 && (#[trigger] users[k]).0 == b && self.uses(ip, b) by {
                    if exists|k: int|
                        0 <= k < i + 1 && (#[trigger] users[k]).0 == b && self.uses(ip, b) {
                        let k = choose|k: int|
                            0 <= k < i + 1 && (#[trigger] users[k]).0 == b && self.uses(ip, b);
                        if k < i {
                            assert(before.contains(b));
                        }
                    }
                    if used@.contains(b) {
                        if before.contains(b) {
                            let k = choose|k: int|
                                0 <= k < i && (#[trigger] users[k]).0 == b && self.uses(ip, b);
                            assert(users[k].0 == b);
                        } else {
                            assert(users[i as int].0 == b);
                        }
                    }
                }
            }
            i = i + 1;
        }
        proof {
            assert forall|b: usize| #[trigger] used@.contains(b) <==> vec_map::has(
                self.users(),
                b,
            ) && self.uses(ip, b) by {
                vec_map::place_is_first(users, b);
                if vec_map::has(users, b) {
                    assert(users[vec_map::place(users, b)].0 == b);
                }
                if used@.contains(b) {
                    let k = choose|k: int|
                        0 <= k < n && (#[trigger] users[k]).0 == b && self.uses(ip, b);
                    assert(users[k].0 == b);
                }
            }
        }
        used
    }

    fn link_uses(&self, ip: IpAddr, clients: &Vec<SocketAddr>) -> (r: bool)
        ensures
            r == (exists|i: int|
                0 <= i < links_of(self.clients(), ip).len() && clients@.contains(
                    (#[trigger] links_of(self.clients(), ip)[i]).0,
                )),
    {
        match self.client_connections.get(&ip) {
            Some(links) => {
                let mut i: usize = 0;
                while i < links.len()
                    invariant
                        i <= links@.len(),
                        links@ == links_of(self.client_connections@, ip),
                        forall|j: int| 0 <= j < i ==> !clients@.contains((#[trigger] links@[j]).0),
                    decreases links@.len() - i,
                {
                    if has_client(clients, links[i].0) {
                        assert(clients@.contains(links_of(self.clients(), ip)[i as int].0));
                        return true;
                    }
                    i = i + 1;
                }
                false
            },
            None => false,
        }
    }

    /// Returns how many clients use each backend connection that is in use.
    pub fn backend_pool(&self) -> (pool: Vec<(usize, usize)>)
        ensures
            pool@.len() == self.users().len(),
            forall|i: int|
                0 <= i < pool@.len() ==> (#[trigger] pool@[i]).0 == self.users()[i].0 && pool@[i].1
                    == self.users()[i].1@.len(),
    {
        let mut pool: Vec<(usize, usize)> = Vec::new();
        let n: usize = self.backend_to_clients_map.len();
        let mut i: usize = 0;
        while i < n
            invariant
                i <= n,
                n == self.backend_to_clients_map@.len(),
                pool@.len() == i,
                forall|j: int|
                    0 <= j < i ==> (#[trigger] pool@[j]).0 == self.backend_to_clients_map@[j].0
                        && pool@[j].1 == self.backend_to_clients_map@[j].1@.len(),
            decreases n - i,
        {
            pool.push(
                (
                    *self.backend_to_clients_map.key_at(i),
                    self.backend_to_clients_map.value_at(i).len(),
                ),
            );
            i = i + 1;
        }
        pool
    }

    /// Returns address and links of the client at `i`.
    pub fn client_at(&self, i: usize) -> (r: Option<(IpAddr, &Vec<ClientLink>)>)
        ensures
            match r {
                Some((ip, links)) => i < self.clients().len() && ip == self.clients()[i as int].0
                    && links@ == self.clients()[i as int].1@,
                None => i >= self.clients().len(),
            },
    {
        if i < self.client_connections.len() {
            Some((*self.client_connections.key_at(i), self.client_connections.value_at(i)))
        } else {
            None
        }
    }

    /// Returns the number of connections to the backend.
    pub fn backend_count(&self) -> (n: usize)
        ensures
            n == self.backends(),
    {
        self.backend_connections
    }
}

fn is_client_expired(last: Instant, now: Instant) -> (r: bool)
    ensures
        r == client_expired(last, now),
{
    last.nanos as u128 + 60_000_000_000 < now.nanos as u128
}

fn has_client(clients: &Vec<SocketAddr>, client: SocketAddr) -> (r: bool)
    ensures
        r == clients@.contains(client),
{
    let mut i: usize = 0;
    while i < clients.len()
        invariant
            i <= clients@.len(),
            forall|j: int| 0 <= j < i ==> clients@[j] != client,
        decreases clients@.len() - i,
    {
        if clients[i] == client {
            assert(clients@[i as int] == client);
            return true;
        }
        i = i + 1;
    }
    false
}

fn insert_sorted(sorted: &mut Vec<usize>, n: usize)
    requires
        forall|x: int, y: int| 0 <= x < y < old(sorted)@.len() ==> old(sorted)@[x] < old(sorted)@[y],
    ensures
        forall|x: int, y: int|
            0 <= x < y < final(sorted)@.len() ==> final(sorted)@[x] < final(sorted)@[y],
        forall|b: usize| #[trigger]
            final(sorted)@.contains(b) <==> old(sorted)@.contains(b) || b == n,
{
    let mut i: usize = 0;
    while i < sorted.len() && sorted[i] < n
        invariant
            i <= sorted@.len(),
            sorted@ == old(sorted)@,
            forall|j: int| 0 <= j < i ==> sorted@[j] < n,
        decreases sorted@.len() - i,
    {
        i = i + 1;
    }
    if i < sorted.len() && sorted[i] == n {
        assert(sorted@[i as int] == n);
        return;
    }
    let ghost before = sorted@;
    sorted.insert(i, n);
    proof {
        let after = sorted@;
        assert(after == before.insert(i as int, n));
        assert forall|b: usize| #[trigger] after.contains(b) <==> before.contains(b) || b == n by {
            if before.contains(b) {
                let k = choose|k: int| 0 <= k < before.len() && before[k] == b;
                assert(after[if k < i {
                    k
                } else {
                    k + 1
                }] == b);
            }
            assert(after[i as int] == n);
            if after.contains(b) {
                let k = choose|k: int| 0 <= k < after.len() && after[k] == b;
                if k < i {
                    assert(before[k] == b);
                } else if k > i {
                    assert(before[k - 1] == b);
                }
            }
        }
    }
}

proof fn unexpired_members(activity: Seq<(SocketAddr, Instant)>, now: Instant)
    ensures
        forall|i: int|
            0 <= i < unexpired(activity, now).len() ==> activity.contains(
                #[trigger] unexpired(activity, now)[i],
            ),
    decreases activity.len(),
{
    if activity.len() > 0 {
        let rest = activity.drop_last();
        let front = unexpired(rest, now);
        let all = unexpired(activity, now);
        unexpired_members(rest, now);
        assert forall|i: int| 0 <= i < all.len() implies activity.contains(#[trigger] all[i]) by {
            if i < front.len() {
                assert(rest.contains(front[i]));
                let j = choose|j: int| 0 <= j < rest.len() && rest[j] == front[i];
                assert(activity[j] == all[i]);
            } else {
                assert(activity[activity.len() - 1] == all[i]);
            }
        }
    }
}

proof fn remaining_members(
    clients: Seq<SocketAddr>,
    activity: Seq<(SocketAddr, Instant)>,
    now: Instant,
)
    requires
        clients.no_duplicates(),
    ensures
        remaining(clients, activity, now).no_duplicates(),
        forall|i: int|
            0 <= i < remaining(clients, activity, now).len() ==> clients.contains(
                #[trigger] remaining(clients, activity, now)[i],
            ),
    decreases clients.len(),
{
    if clients.len() > 0 {
        let rest = clients.drop_last();
        let front = remaining(rest, activity, now);
        let all = remaining(clients, activity, now);
        remaining_members(rest, activity, now);
        assert forall|i: int| 0 <= i < all.len() implies clients.contains(#[trigger] all[i]) by {
            if i < front.len() {
                assert(rest.contains(front[i]));
                let j = choose|j: int| 0 <= j < rest.len() && rest[j] == front[i];
                assert(clients[j] == all[i]);
            } else {
                assert(clients[clients.len() - 1] == all[i]);
            }
        }
        assert forall|i: int, j: int|
            0 <= i < all.len() && 0 <= j < all.len() && i != j implies all[i] != all[j] by {
            if i < front.len() && j < front.len() {
                assert(front[i] != front[j]);
            } else {
                let k = if i < front.len() {
                    i
                } else {
                    j
                };
                assert(rest.contains(front[k]));
                let l = choose|l: int| 0 <= l < rest.len() && rest[l] == front[k];
                assert(clients[l] != clients[clients.len() - 1]);
            }
        }
    }
}

/// A client that is active has not expired: cleaning up does not take responses
/// away from it.
pub proof fn active_clients_do_not_expire(
    activity: Seq<(SocketAddr, Instant)>,
    client: SocketAddr,
    now: Instant,
)
    requires
        vec_map::distinct(activity),
        active(activity, client, now),
    ensures
        !known_expired(activity, client, now),
{
    vec_map::place_is_first(activity, client);
    let p = vec_map::place(activity, client);
    assert forall|i: int| 0 <= i < activity.len() && (#[trigger] activity[i]).0 == client implies i
        == p by {
        if i > p {
            assert(activity[p].0 != activity[i].0);
        }
    }
}

/// The clients that are served are the active ones.
pub proof fn served_clients_are_active(
    clients: Seq<SocketAddr>,
    activity: Seq<(SocketAddr, Instant)>,
    now: Instant,
    client: SocketAddr,
)
    ensures
        active_clients(clients, activity, now).contains(client) <==> clients.contains(client)
            && active(activity, client, now),
    decreases clients.len(),
{
    if clients.len() > 0 {
        let front = clients.drop_last();
        let before = active_clients(front, activity, now);
        served_clients_are_active(front, activity, now, client);
        if clients.contains(client) {
            let j = choose|j: int| 0 <= j < clients.len() && clients[j] == client;
            if j < front.len() {
                assert(front[j] == client);
            }
        }
        if front.contains(client) {
            let j = choose|j: int| 0 <= j < front.len() && front[j] == client;
            assert(clients[j] == client);
        }
        let all = active_clients(clients, activity, now);
        if before.contains(client) {
            let j = choose|j: int| 0 <= j < before.len() && before[j] == client;
            assert(all[j] == client);
        }
        if active(activity, clients.last(), now) {
            assert(all[all.len() - 1] == clients.last());
        }
        if all.contains(client) {
            let j = choose|j: int| 0 <= j < all.len() && all[j] == client;
            if j < before.len() {
                assert(before[j] == client);
            } else {
                assert(clients[clients.len() - 1] == client);
            }
        }
    }
}

/// A delivery goes to one of the clients, over one of the links of its address.
pub proof fn delivery_uses_own_link(
    clients: Seq<SocketAddr>,
    connections: Seq<(IpAddr, Vec<ClientLink>)>,
    index: u64,
    i: int,
)
    requires
        0 <= i < deliveries(clients, connections, index).len(),
    ensures
        ({
            let delivery = deliveries(clients, connections, index)[i];
            let links = links_of(connections, delivery.client.host());
            &&& clients.contains(delivery.client)
            &&& exists|k: int| 0 <= k < links.len() && (#[trigger] links[k]).1.id == delivery.socket
        }),
    decreases clients.len(),
{
    let front = clients.drop_last();
    let before = deliveries(front, connections, index);
    let all = deliveries(clients, connections, index);
    let delivery = all[i];
    if i < before.len() {
        delivery_uses_own_link(front, connections, index, i);
        let j = choose|j: int| 0 <= j < front.len() && front[j] == delivery.client;
        assert(clients[j] == delivery.client);
    } else {
        let links = links_of(connections, clients.last().host());
        let turn = link_state::counted_up(index, before.len()) as u64 as usize;
        let k = turn as int % links.len() as int;
        vstd::arithmetic::div_mod::lemma_mod_bound(turn as int, links.len() as int);
        assert(links[k].1.id == delivery.socket);
        assert(clients[clients.len() - 1] == delivery.client);
    }
}

/// Every client whose address has a link gets a delivery.
pub proof fn every_linked_client_is_served(
    clients: Seq<SocketAddr>,
    connections: Seq<(IpAddr, Vec<ClientLink>)>,
    index: u64,
    j: int,
)
    requires
        0 <= j < clients.len(),
        links_of(connections, clients[j].host()).len() > 0,
    ensures
        exists|i: int|
            0 <= i < deliveries(clients, connections, index).len() && (#[trigger] deliveries(
                clients,
                connections,
                index,
            )[i]).client == clients[j],
    decreases clients.len(),
{
    let front = clients.drop_last();
    let before = deliveries(front, connections, index);
    let all = deliveries(clients, connections, index);
    if j < front.len() {
        every_linked_client_is_served(front, connections, index, j);
        let i = choose|i: int| 0 <= i < before.len() && (#[trigger] before[i]).client == front[j];
        assert(all[i] == before[i]);
    } else {
        assert(all[all.len() - 1].client == clients[j]);
    }
}

/// As many consecutive packets as there are backend connections reach every one of
/// them, unless the counter starts again from zero among them and its number of
/// values is no multiple of the number of connections.
pub proof fn backends_take_turns(a: ServerAggregator, backend: int) -> (k: int)
    requires
        0 <= backend < a.backends(),
        a.index() as usize + a.backends() - 1 <= usize::MAX || turns::usize_values()
            % a.backends() as int == 0,
    ensures
        0 <= k < a.backends(),
        backend == link_state::counted_up(a.index(), k as nat) as u64 as usize as int
            % a.backends() as int,
{
    let k = turns::turns_reach_all(a.index() as usize, a.backends() as int, backend);
    turns::narrowed_counter(a.index(), k as nat);
    k
}

fn has_socket(links: &Vec<ClientLink>, socket: ServerSocket) -> (r: bool)
    ensures
        r == registered(links@, socket),
{
    let mut i: usize = 0;
    while i < links.len()
        invariant
            i <= links@.len(),
            forall|j: int| 0 <= j < i ==> (#[trigger] links@[j]).1.local_addr != socket.local_addr,
        decreases links@.len() - i,
    {
        if same_local(links[i].1.local_addr, socket.local_addr) {
            assert(links@[i as int].1.local_addr == socket.local_addr);
            return true;
        }
        i = i + 1;
    }
    false
}

fn same_local(a: Option<SocketAddr>, b: Option<SocketAddr>) -> (r: bool)
    ensures
        r == (a == b),
{
    match (a, b) {
        (Some(x), Some(y)) => x == y,
        (None, None) => true,
        _ => false,
    }
}

fn join_client(clients: &mut Vec<SocketAddr>, client: SocketAddr)
    ensures
        final(clients)@ == (if old(clients)@.contains(client) {
            old(clients)@
        } else {
            old(clients)@.push(client)
        }),
        old(clients)@.no_duplicates() ==> final(clients)@.no_duplicates(),
{
    let mut i: usize = 0;
    while i < clients.len()
        invariant
            i <= clients@.len(),
            clients@ == old(clients)@,
            forall|j: int| 0 <= j < i ==> clients@[j] != client,
        decreases clients@.len() - i,
    {
        if clients[i] == client {
            assert(clients@[i as int] == client);
            return;
        }
        i = i + 1;
    }
    assert(!clients@.contains(client));
    clients.push(client);
}

} // verus!
