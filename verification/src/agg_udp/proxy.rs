//! The proxy as a whole: what happens to packets on both sides.
use crate::addr::{IpAddr, SocketAddr};
use crate::agg_udp::aggregator::{AggregatorError, Selected, SimpleUdpAggregator};
use crate::agg_udp::link_stats::{BandwidthLabel, LinkCondition};
use crate::agg_udp::server;
use crate::agg_udp::server::{ServerAggregator, ServerError, ServerSocket};
use crate::agg_udp::sessions;
use crate::agg_udp::sessions::{SessionTable, UdpSession};
use crate::agg_udp::shares;
use crate::link_state;
use crate::text;
use crate::time::{Duration, Instant};
use crate::unordered_cfg::LoadBalanceStrategy;
use crate::vec_map;
use crate::vec_map::VecMap;
use vstd::prelude::*;
use vstd::string::*;

verus! {

/// The strategy of the aggregation that a name on the command line stands for. Unknown
/// names stand for round-robin, and so do `random` and `weighted`, which only the client
/// side knows.
pub open spec fn strategy_named(name: Seq<char>) -> LoadBalanceStrategy {
    if name == "weighted-bandwidth"@ {
        LoadBalanceStrategy::WeightedByBandwidth
    } else if name == "fastest-first"@ || name == "fastest"@ {
        LoadBalanceStrategy::FastestFirst
    } else if name == "weighted-packet-loss"@ {
        LoadBalanceStrategy::WeightedByPacketLoss
    } else if name == "dynamic-adaptive"@ {
        LoadBalanceStrategy::DynamicAdaptive
    } else {
        LoadBalanceStrategy::PacketRoundRobin
    }
}

/// Returns the strategy that a name on the command line stands for.
pub fn parse_strategy(name: &str) -> (strategy: LoadBalanceStrategy)
    ensures
        strategy == strategy_named(name@),
{
    proof {
        reveal_strlit("packet-round-robin");
        reveal_strlit("weighted-bandwidth");
        reveal_strlit("fastest-first");
        reveal_strlit("fastest");
        reveal_strlit("weighted-packet-loss");
        reveal_strlit("dynamic-adaptive");
    }
    if text::same(name, "packet-round-robin") {
        assert(name@.len() == 18);
        assert(name@[0] == 'p');
        LoadBalanceStrategy::PacketRoundRobin
    } else if text::same(name, "weighted-bandwidth") {
        LoadBalanceStrategy::WeightedByBandwidth
    } else if text::same(name, "fastest-first") || text::same(name, "fastest") {
        LoadBalanceStrategy::FastestFirst
    } else if text::same(name, "weighted-packet-loss") {
        LoadBalanceStrategy::WeightedByPacketLoss
    } else if text::same(name, "dynamic-adaptive") {
        LoadBalanceStrategy::DynamicAdaptive
    } else {
        LoadBalanceStrategy::PacketRoundRobin
    }
}

/// How the client side chooses the connection over which a packet goes.
#[derive(Debug, Clone, Copy, PartialEq, Eq, Structural)]
pub enum ClientStrategy {
    /// By a strategy of the aggregation.
    Balanced(LoadBalanceStrategy),
    /// At random.
    Random,
    /// At random, by the weights that were set for the connections.
    Weighted,
}

/// The strategy of the client side that a name on the command line stands for.
pub open spec fn client_strategy_named(name: Seq<char>) -> ClientStrategy {
    if name == "random"@ {
        ClientStrategy::Random
    } else if name == "weighted"@ {
        ClientStrategy::Weighted
    } else {
        ClientStrategy::Balanced(strategy_named(name))
    }
}

/// Returns the strategy of the client side: with all links forced, they are
/// taken in turn whatever was asked for.
pub fn client_strategy(name: &str, force_all_links: bool) -> (strategy: ClientStrategy)
    ensures
        strategy == (if force_all_links {
            ClientStrategy::Balanced(LoadBalanceStrategy::PacketRoundRobin)
        } else {
            client_strategy_named(name@)
        }),
{
    if force_all_links {
        ClientStrategy::Balanced(LoadBalanceStrategy::PacketRoundRobin)
    } else if text::same(name, "random") {
        ClientStrategy::Random
    } else if text::same(name, "weighted") {
        ClientStrategy::Weighted
    } else {
        ClientStrategy::Balanced(parse_strategy(name))
    }
}

/// Client side of the proxy.
#[derive(Debug, Clone)]
pub struct UdpProxyClient {
    /// Distributes packets over connections.
    pub aggregator: SimpleUdpAggregator,
    /// Clients that packets came from.
    pub sessions: SessionTable,
    /// How connections are chosen.
    pub strategy: ClientStrategy,
    /// Weights of connections by name. A connection without one weighs one.
    pub weights: VecMap<String, u32>,
}

impl UdpProxyClient {
    /// All parts are in order.
    pub open spec fn wf(&self) -> bool {
        self.aggregator.wf() && self.sessions.wf() && self.weights.wf()
    }

    /// The share of each connection in a choice at random.
    pub open spec fn shares(&self) -> Seq<u32> {
        Seq::new(
            self.aggregator.conns().len(),
            |i: int|
                match (self.strategy, vec_map::value(self.weights@, self.aggregator.conns()[i].0)) {
                    (ClientStrategy::Weighted, Some(weight)) => weight,
                    _ => 1,
                },
        )
    }

    /// The connection over which a packet goes, given a drawn number.
    pub open spec fn chooses(&self, draw: u64, key: Seq<char>) -> bool {
        match self.strategy {
            ClientStrategy::Balanced(_) => self.aggregator.chooses(key),
            _ => exists|i: int| #[trigger]
                shares::falls_on(self.shares(), draw, i) && key == self.aggregator.conns()[i].0,
        }
    }

    /// Creates the client side without connections, clients and weights.
    pub fn new(strategy: ClientStrategy) -> (p: UdpProxyClient)
        ensures
            p.wf(),
            p.strategy == strategy,
            p.weights@.len() == 0,
            p.aggregator.strategy() == (match strategy {
                ClientStrategy::Balanced(balanced) => balanced,
                _ => LoadBalanceStrategy::PacketRoundRobin,
            }),
            p.aggregator.conns().len() == 0,
            p.aggregator.order().len() == 0,
            p.aggregator.statistics().len() == 0,
            p.aggregator.totals() == (0u64, 0u64),
            p.aggregator.index() == 0,
            p.aggregator.send_interval() == 0,
            p.sessions.entries().len() == 0,
    {
        let balanced = match strategy {
            ClientStrategy::Balanced(balanced) => balanced,
            _ => LoadBalanceStrategy::PacketRoundRobin,
        };
        UdpProxyClient {
            aggregator: SimpleUdpAggregator::new(balanced),
            sessions: SessionTable::new(),
            strategy,
            weights: VecMap::new(),
        }
    }

    /// Sets the weight of a connection.
    pub fn set_weight(&mut self, key: String, weight: u32)
        requires
            old(self).wf(),
        ensures
            final(self).wf(),
            final(self).aggregator == old(self).aggregator,
            final(self).sessions == old(self).sessions,
            final(self).strategy == old(self).strategy,
            final(self).weights@ == vec_map::with(old(self).weights@, key@, weight),
    {
        self.weights.insert(key, weight);
    }

    fn connection_shares(&self) -> (shares: Vec<u32>)
        requires
            self.wf(),
        ensures
            shares@ == self.shares(),
    {
        let mut shares: Vec<u32> = Vec::new();
        let n: usize = self.aggregator.connection_count();
        let mut i: usize = 0;
        while i < n
            invariant
                self.wf(),
                i <= n,
                n == self.aggregator.conns().len(),
                shares@ == self.shares().take(i as int),
            decreases n - i,
        {
            let mut share: u32 = 1;
            if let ClientStrategy::Weighted = self.strategy {
                if let Some((key, _)) = self.aggregator.link_stats(i) {
                    assert(self.aggregator.statistics()[i as int].0 == self.aggregator.conns()[i as int].0);
                    if let Some(weight) = self.weights.get(key) {
                        share = *weight;
                    }
                }
            }
            shares.push(share);
            assert(self.shares().take(i + 1) =~= self.shares().take(i as int).push(share));
            i = i + 1;
        }
        assert(self.shares().take(n as int) =~= self.shares());
        shares
    }

    /// Takes in a packet of a client: its session is marked as used, and the
    /// connection is chosen over which the packet goes. The drawn number counts
    /// where connections are chosen at random only.
    pub fn on_packet(&mut self, client: SocketAddr, draw: u64, now: Instant) -> (r: Result<
        Selected,
        AggregatorError,
    >)
        requires
            old(self).wf(),
        ensures
            final(self).wf(),
            final(self).strategy == old(self).strategy,
            final(self).weights == old(self).weights,
            final(self).sessions.entries() == sessions::touched(
                old(self).sessions.entries(),
                client,
                None,
                now,
            ),
            final(self).aggregator.conns() == old(self).aggregator.conns(),
            final(self).aggregator.order() == old(self).aggregator.order(),
            final(self).aggregator.statistics() == old(self).aggregator.statistics(),
            final(self).aggregator.totals() == old(self).aggregator.totals(),
            final(self).aggregator.strategy() == old(self).aggregator.strategy(),
            final(self).aggregator.send_interval() == old(self).aggregator.send_interval(),
            final(self).aggregator.index() == (if old(self).strategy is Balanced && old(
                self,
            ).aggregator.conns().len() > 0 && old(self).aggregator.takes_turns() {
                link_state::counted_up(old(self).aggregator.index(), 1)
            } else {
                old(self).aggregator.index() as nat
            }),
            match r {
                Err(e) => e is NoConnections && old(self).aggregator.conns().len() == 0,
                Ok(selected) => {
                    &&& old(self).chooses(draw, selected.key@)
                    &&& vec_map::value(old(self).aggregator.conns(), selected.key@) matches Some(c)
                        && selected.target == c.target_addr
                },
            },
    {
        let _ = self.sessions.touch(client, None, now);
        match self.strategy {
            ClientStrategy::Balanced(_) => self.aggregator.select_connection(),
            _ => {
                let shares = self.connection_shares();
                let r = self.aggregator.select_drawn_connection(&shares, draw);
                proof {
                    assert(self.shares() =~= old(self).shares());
                    if r is Ok {
                        let selected = r->Ok_0;
                        let i = choose|i: int| #[trigger]
                            shares::falls_on(shares@, draw, i) && selected.key@
                                == self.aggregator.conns()[i].0 && selected.target
                                == self.aggregator.conns()[i].1.target_addr;
                        vec_map::place_is_first(self.aggregator.conns(), selected.key@);
                        let p = vec_map::place(self.aggregator.conns(), selected.key@);
                        assert(p < i ==> self.aggregator.conns()[p].0
                            != self.aggregator.conns()[i].0);
                    }
                }
                r
            },
        }
    }

    /// Drops the sessions of clients that have not sent anything for more than a
    /// minute.
    pub fn cleanup_sessions(&mut self, now: Instant) -> (dropped: usize)
        requires
            old(self).wf(),
        ensures
            final(self).wf(),
            final(self).aggregator == old(self).aggregator,
            final(self).strategy == old(self).strategy,
            final(self).weights == old(self).weights,
            final(self).sessions.entries() == sessions::unexpired(
                old(self).sessions.entries(),
                now,
                (Duration { nanos: 60_000_000_000 }),
            ),
            dropped + final(self).sessions.entries().len() == old(self).sessions.entries().len(),
    {
        self.sessions.cleanup(now, Duration::from_secs(60))
    }

    /// Returns the clients to which a response of the server goes: all that have
    /// a session.
    pub fn response_targets(&self) -> (clients: Vec<SocketAddr>)
        ensures
            clients@ == self.sessions.entries().map_values(|e: (SocketAddr, UdpSession)| e.0),
    {
        self.sessions.clients()
    }
}

/// What the server side has counted.
#[derive(Debug, Clone, Copy, PartialEq, Eq, Structural)]
pub struct ServerCounters {
    /// Packets received from clients.
    pub packets_received: u64,
    /// Bytes received from clients.
    pub bytes_received: u64,
    /// Packets forwarded to the backend.
    pub packets_forwarded: u64,
    /// Bytes forwarded to the backend.
    pub bytes_forwarded: u64,
}

impl ServerCounters {
    /// These counters after a packet was received.
    pub open spec fn received(self, bytes: nat) -> ServerCounters {
        ServerCounters {
            packets_received: link_state::counted_up(self.packets_received, 1) as u64,
            bytes_received: link_state::counted_up(self.bytes_received, bytes) as u64,
            ..self
        }
    }

    /// These counters after a packet was forwarded.
    pub open spec fn forwarded(self, bytes: nat) -> ServerCounters {
        ServerCounters {
            packets_forwarded: link_state::counted_up(self.packets_forwarded, 1) as u64,
            bytes_forwarded: link_state::counted_up(self.bytes_forwarded, bytes) as u64,
            ..self
        }
    }
}

/// Server side of the proxy.
#[derive(Debug, Clone)]
pub struct UdpProxyServer {
    aggregator: ServerAggregator,
    sessions: SessionTable,
    client_targets: VecMap<SocketAddr, SocketAddr>,
    counters: ServerCounters,
}

/// No client has two sessions, two targets or two times of its last packet.
pub proof fn parts_are_distinct(p: &UdpProxyServer)
    requires
        p.wf(),
    ensures
        vec_map::distinct(p.table()),
        vec_map::distinct(p.targets()),
        p.agg().wf(),
{
    sessions::entries_are_distinct(&p.sessions);
}

impl UdpProxyServer {
    /// The links of clients and the connections to the backend.
    pub closed spec fn agg(&self) -> ServerAggregator {
        self.aggregator
    }

    /// The sessions of clients.
    pub closed spec fn table(&self) -> Seq<(SocketAddr, UdpSession)> {
        self.sessions.entries()
    }

    /// The target of each client.
    pub closed spec fn targets(&self) -> Seq<(SocketAddr, SocketAddr)> {
        self.client_targets@
    }

    /// What was counted.
    pub closed spec fn counts(&self) -> ServerCounters {
        self.counters
    }

    /// All parts are in order.
    pub closed spec fn wf(&self) -> bool {
        self.aggregator.wf() && self.sessions.wf() && self.client_targets.wf()
    }

    /// Creates the server side without clients, over an aggregator.
    pub fn new(aggregator: ServerAggregator) -> (p: UdpProxyServer)
        requires
            aggregator.wf(),
        ensures
            p.wf(),
            p.agg() == aggregator,
            p.table().len() == 0,
            p.targets().len() == 0,
            p.counts() == (ServerCounters {
                packets_received: 0,
                bytes_received: 0,
                packets_forwarded: 0,
                bytes_forwarded: 0,
            }),
    {
        UdpProxyServer {
            aggregator,
            sessions: SessionTable::new(),
            client_targets: VecMap::new(),
            counters: ServerCounters {
                packets_received: 0,
                bytes_received: 0,
                packets_forwarded: 0,
                bytes_forwarded: 0,
            },
        }
    }

    /// Takes in a packet of a client that came in on a socket: it is counted,
    /// the session of the client is marked as used, the link is registered, and
    /// the backend connection is chosen over which the packet goes.
    pub fn on_packet(
        &mut self,
        client: SocketAddr,
        socket: ServerSocket,
        len: usize,
        target: SocketAddr,
        now: Instant,
    ) -> (r: Result<usize, ServerError>)
        requires
            old(self).wf(),
        ensures
            final(self).wf(),
            final(self).counts() == old(self).counts().received(len as nat),
            final(self).table() == sessions::touched(
                old(self).table(),
                client,
                Some(socket.id),
                now,
            ),
            final(self).targets() == vec_map::with(old(self).targets(), client, target),
            final(self).agg().users() == old(self).agg().users(),
            final(self).agg().activity() == old(self).agg().activity(),
            final(self).agg().backends() == old(self).agg().backends(),
            final(self).agg().responses() == old(self).agg().responses(),
            final(self).agg().strategy() == old(self).agg().strategy(),
            vec_map::has(final(self).agg().clients(), client.host()),
            forall|ip: IpAddr|
                ip != client.host() ==> #[trigger] vec_map::value(final(self).agg().clients(), ip)
                    == vec_map::value(old(self).agg().clients(), ip),
            ({
                let before = server::links_of(old(self).agg().clients(), client.host());
                let after = server::links_of(final(self).agg().clients(), client.host());
                after == (if server::registered(before, socket) {
                    before
                } else {
                    before.push((client, socket))
                })
            }),
            match r {
                Ok(b) => old(self).agg().backends() > 0 && b == old(self).agg().index() as usize as int % old(self).agg().backends() as int && final(self).agg().index() == link_state::counted_up(old(self).agg().index(), 1),
                Err(e) => old(self).agg().backends() == 0 && e is NoBackend && final(self).agg().index() == old(self).agg().index(),
            },
    {
        self.counters.packets_received = self.counters.packets_received.wrapping_add(1);
        self.counters.bytes_received = self.counters.bytes_received.wrapping_add(len as u64);
        let _ = self.sessions.touch(client, Some(socket.id), now);
        self.client_targets.insert(client, target);
        let _ = self.aggregator.register_client_connection(client, socket);
        self.aggregator.send_to_backend()
    }

    /// Takes note of how forwarding a packet of a client ended.
    pub fn complete_forward(
        &mut self,
        backend: usize,
        client: SocketAddr,
        len: usize,
        outcome: Result<usize, String>,
        now: Instant,
    ) -> (r: Result<(), ServerError>)
        requires
            old(self).wf(),
        ensures
            final(self).wf(),
            final(self).table() == old(self).table(),
            final(self).targets() == old(self).targets(),
            final(self).agg().clients() == old(self).agg().clients(),
            final(self).agg().index() == old(self).agg().index(),
            final(self).agg().backends() == old(self).agg().backends(),
            final(self).agg().strategy() == old(self).agg().strategy(),
            final(self).agg().responses() == old(self).agg().responses(),
            match outcome {
                Ok(_) => {
                    &&& r is Ok
                    &&& final(self).counts() == old(self).counts().forwarded(len as nat)
                    &&& final(self).agg().activity() == vec_map::with(
                        old(self).agg().activity(),
                        client,
                        now,
                    )
                    &&& server::clients_of(final(self).agg().users(), backend) == (
                    if server::clients_of(old(self).agg().users(), backend).contains(client) {
                        server::clients_of(old(self).agg().users(), backend)
                    } else {
                        server::clients_of(old(self).agg().users(), backend).push(client)
                    })
                    &&& forall|b: usize|
                        b != backend ==> #[trigger] vec_map::value(final(self).agg().users(), b)
                            == vec_map::value(old(self).agg().users(), b)
                },
                Err(error) => {
                    &&& r matches Err(ServerError::BackendSendFailed(e)) && e@ == error@
                    &&& final(self).counts() == old(self).counts()
                    &&& final(self).agg() == old(self).agg()
                },
            },
    {
        match outcome {
            Ok(_) => {
                self.aggregator.record_backend_send(backend, client, now);
                self.counters.packets_forwarded = self.counters.packets_forwarded.wrapping_add(1);
                self.counters.bytes_forwarded = self.counters.bytes_forwarded.wrapping_add(
                    len as u64,
                );
                Ok(())
            },
            Err(error) => Err(ServerError::BackendSendFailed(error)),
        }
    }

    /// Drops the sessions of clients that have not sent anything for more than
    /// five minutes.
    pub fn cleanup_sessions(&mut self, now: Instant) -> (dropped: usize)
        requires
            old(self).wf(),
        ensures
            final(self).wf(),
            final(self).agg() == old(self).agg(),
            final(self).targets() == old(self).targets(),
            final(self).counts() == old(self).counts(),
            final(self).table() == sessions::unexpired(
                old(self).table(),
                now,
                (Duration { nanos: 300_000_000_000 }),
            ),
            dropped + final(self).table().len() == old(self).table().len(),
    {
        self.sessions.cleanup(now, Duration::from_secs(300))
    }

    /// Drops what belongs to clients that have not sent anything for more than
    /// a minute.
    pub fn cleanup_clients(&mut self, now: Instant) -> (dropped: usize)
        requires
            old(self).wf(),
        ensures
            final(self).wf(),
            final(self).table() == old(self).table(),
            final(self).targets() == old(self).targets(),
            final(self).counts() == old(self).counts(),
            final(self).agg().clients() == old(self).agg().clients(),
            final(self).agg().index() == old(self).agg().index(),
            final(self).agg().backends() == old(self).agg().backends(),
            final(self).agg().strategy() == old(self).agg().strategy(),
            final(self).agg().responses() == old(self).agg().responses(),
            final(self).agg().activity() == server::unexpired(old(self).agg().activity(), now),
            server::cleaned(
                old(self).agg().users(),
                final(self).agg().users(),
                old(self).agg().activity(),
                now,
            ),
            dropped + final(self).agg().activity().len() == old(self).agg().activity().len(),
    {
        self.aggregator.cleanup_expired_clients(now)
    }

    /// Takes note of how sending a response ended.
    pub fn complete_response(&mut self, outcome: Result<usize, String>) -> (r: Result<
        (),
        ServerError,
    >)
        requires
            old(self).wf(),
        ensures
            final(self).wf(),
            final(self).table() == old(self).table(),
            final(self).targets() == old(self).targets(),
            final(self).counts() == old(self).counts(),
            final(self).agg().clients() == old(self).agg().clients(),
            final(self).agg().users() == old(self).agg().users(),
            final(self).agg().activity() == old(self).agg().activity(),
            final(self).agg().index() == old(self).agg().index(),
            final(self).agg().backends() == old(self).agg().backends(),
            final(self).agg().strategy() == old(self).agg().strategy(),
            match outcome {
                Ok(bytes) => {
                    &&& r is Ok
                    &&& final(self).agg().responses().0 == link_state::counted_up(
                        old(self).agg().responses().0,
                        1,
                    )
                    &&& final(self).agg().responses().1 == link_state::counted_up(
                        old(self).agg().responses().1,
                        bytes as nat,
                    )
                },
                Err(error) => {
                    &&& r matches Err(ServerError::ResponseSendFailed(e)) && e@ == error@
                    &&& final(self).agg().responses() == old(self).agg().responses()
                },
            },
    {
        self.aggregator.complete_response(outcome)
    }

    /// Returns the aggregator.
    pub fn aggregator(&self) -> (a: &ServerAggregator)
        ensures
            *a == self.agg(),
            self.wf() ==> a.wf(),
    {
        &self.aggregator
    }

    /// Returns what was counted.
    pub fn counters(&self) -> (c: ServerCounters)
        ensures
            c == self.counts(),
    {
        self.counters
    }
}

/// Returns the text of a bandwidth; `mega` is the text of a bandwidth shown in
/// megabytes.
pub fn bandwidth_text(label: BandwidthLabel, mega: &str) -> (s: String)
    ensures
        s@ == (match label {
            BandwidthLabel::Mega(_) => mega@ + " MB/s"@,
            BandwidthLabel::Kilo(n) => text::decimal(n as nat) + " KB/s"@,
            BandwidthLabel::Bytes(n) => text::decimal(n as nat) + " B/s"@,
        }),
{
    match label {
        BandwidthLabel::Mega(_) => mega.to_owned().concat(" MB/s"),
        BandwidthLabel::Kilo(n) => text::decimal_text(n as u128).concat(" KB/s"),
        BandwidthLabel::Bytes(n) => text::decimal_text(n as u128).concat(" B/s"),
    }
}

/// Returns the line shown for a connection; `loss` is the text of the loss rate
/// in percent.
pub fn link_line(key: &str, bandwidth: &str, condition: &str, loss: &str, rtt: &str) -> (s: String)
    ensures
        s@ == "  "@ + key@ + ": "@ + bandwidth@ + " | "@ + condition@ + " | "@ + loss@
            + "% if-err | RTT: "@ + rtt@ + "\n"@,
{
    "  ".to_owned().concat(key).concat(": ").concat(bandwidth).concat(" | ").concat(condition).concat(
    " | ").concat(loss).concat("% if-err | RTT: ").concat(rtt).concat("\n")
}

/// What the status says of the rate limit.
pub open spec fn rate_text(packets: u64, interval_us: u64, pps: Seq<char>) -> Seq<char> {
    if packets > 1000 {
        if interval_us > 0 {
            "\nRate limit: "@ + pps + " pps"@
        } else {
            "\nRate limit: UNLIMITED"@
        }
    } else {
        Seq::empty()
    }
}

/// All lines one after the other.
pub open spec fn all_lines(lines: Seq<String>) -> Seq<char>
    decreases lines.len(),
{
    if lines.len() == 0 {
        Seq::empty()
    } else {
        all_lines(lines.drop_last()) + lines.last()@
    }
}

/// Returns the status of the client side: a line for each connection, the
/// totals, and once there is enough traffic the rate limit, `pps` being its
/// text.
pub fn status_text(
    connections: usize,
    lines: &Vec<String>,
    packets: u64,
    bytes: u64,
    interval_us: u64,
    pps: &str,
) -> (s: String)
    ensures
        s@ == (if lines@.len() == 0 {
            "UDP Proxy - No active connections"@
        } else {
            "UDP Proxy - "@ + text::decimal(connections as nat) + " active connections:\n"@
                + all_lines(lines@) + "Total: "@ + text::decimal(packets as nat) + " packets, "@
                + text::decimal(bytes as nat / 1024) + " KB forwarded"@ + rate_text(
                packets,
                interval_us,
                pps@,
            )
        }),
{
    if lines.len() == 0 {
        return "UDP Proxy - No active connections".to_owned();
    }
    let mut s = "UDP Proxy - ".to_owned().concat(
        text::decimal_text(connections as u128).as_str(),
    ).concat(" active connections:\n");
    let ghost head = s@;
    let mut i: usize = 0;
    assert(lines@.take(0) =~= Seq::empty());
    assert(head + Seq::empty() =~= head);
    while i < lines.len()
        invariant
            i <= lines@.len(),
            s@ == head + all_lines(lines@.take(i as int)),
        decreases lines@.len() - i,
    {
        let ghost before = s@;
        assert(lines@.take(i + 1).drop_last() =~= lines@.take(i as int));
        s.append(lines[i].as_str());
        assert(s@ =~= head + (all_lines(lines@.take(i as int)) + lines@[i as int]@));
        i = i + 1;
    }
    assert(lines@.take(i as int) =~= lines@);
    s.append("Total: ");
    s.append(text::decimal_text(packets as u128).as_str());
    s.append(" packets, ");
    s.append(text::decimal_text((bytes / 1024) as u128).as_str());
    s.append(" KB forwarded");
    let ghost body = s@;
    assert(body + Seq::empty() =~= body);
    if packets > 1000 {
        if interval_us > 0 {
            s.append("\nRate limit: ");
            s.append(pps);
            s.append(" pps");
            assert(s@ =~= body + rate_text(packets, interval_us, pps@));
        } else {
            s.append("\nRate limit: UNLIMITED");
        }
    }
    s
}

/// Returns the text shown for a client with a number of links.
pub fn client_label(links: usize) -> (s: String)
    ensures
        s@ == (if links > 1 {
            "MULTI-LINK ("@
        } else {
            "SINGLE-LINK ("@
        }) + text::decimal(links as nat) + ")"@,
{
    let head = if links > 1 {
        "MULTI-LINK ("
    } else {
        "SINGLE-LINK ("
    };
    head.to_owned().concat(text::decimal_text(links as u128).as_str()).concat(")")
}

/// Returns the text shown for a backend connection with a number of clients.
pub fn backend_label(clients: usize) -> (s: String)
    ensures
        s@ == (if clients > 0 {
            "ACTIVE (serving "@ + text::decimal(clients as nat) + " clients)"@
        } else {
            "IDLE"@
        }),
{
    if clients > 0 {
        "ACTIVE (serving ".to_owned().concat(text::decimal_text(clients as u128).as_str()).concat(
            " clients)",
        )
    } else {
        "IDLE".to_owned()
    }
}

} // verus!
