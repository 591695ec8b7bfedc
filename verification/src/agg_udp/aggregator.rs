//! Distribution of packets over the connections of the client side.
use crate::addr::SocketAddr;
use crate::agg_udp::link_stats;
use crate::agg_udp::link_stats::{ClosedWindow, LinkStats};
use crate::agg_udp::shares;
use crate::link_state;
use crate::load_balancer::Measure;
use crate::time::{Duration, Instant};
use crate::turns;
use crate::unordered_cfg::LoadBalanceStrategy;
use crate::vec_map;
use crate::vec_map::VecMap;
use vstd::prelude::*;
use vstd::string::*;

verus! {

/// A connection over one interface, without its socket.
#[derive(Debug, Clone)]
pub struct UdpConnection {
    /// Name of the interface.
    pub interface_name: String,
    /// Local address.
    pub local_addr: SocketAddr,
    /// Address of the target.
    pub target_addr: SocketAddr,
}

/// Why a packet could not be sent.
#[derive(Debug, Clone)]
pub enum AggregatorError {
    /// There are no connections.
    NoConnections,
    /// Sending failed.
    SendFailed(String),
}

impl AggregatorError {
    /// Returns the text shown for this error.
    pub fn message(&self) -> (s: String)
        ensures
            s@ == (match *self {
                AggregatorError::NoConnections => "No connections available"@,
                AggregatorError::SendFailed(error) => "Send failed: "@ + error@,
            }),
    {
        match self {
            AggregatorError::NoConnections => "No connections available".to_owned(),
            AggregatorError::SendFailed(error) => "Send failed: ".to_owned().concat(
                error.as_str(),
            ),
        }
    }
}

/// The connection over which a packet goes.
#[derive(Debug, Clone)]
pub struct Selected {
    /// Name of the connection.
    pub key: String,
    /// Where the packet goes.
    pub target: SocketAddr,
}

/// The round-trip time by which a connection is chosen. Without an estimate it
/// is 50 ms, and where few sends succeed 100 ms.
pub open spec fn effective_rtt(stats: LinkStats) -> nat {
    if link_stats::above(stats.success_rate, link_stats::RANK_0_2) {
        match stats.avg_rtt {
            Some(rtt) => rtt.nanos as nat,
            None => 50_000_000,
        }
    } else {
        100_000_000
    }
}

/// The connection at `i` is the first of those with the smallest round-trip
/// time; it is the first if all take ten seconds or more.
pub open spec fn fastest(stats: Seq<(Seq<char>, LinkStats)>, i: int) -> bool {
    &&& 0 <= i < stats.len()
    &&& if effective_rtt(stats[i].1) < 10_000_000_000 {
        forall|j: int|
            0 <= j < stats.len() ==> effective_rtt(stats[i].1) < effective_rtt(
                (#[trigger] stats[j]).1,
            ) || effective_rtt(stats[i].1) == effective_rtt(stats[j].1) && i <= j
    } else {
        i == 0 && forall|j: int|
            0 <= j < stats.len() ==> effective_rtt((#[trigger] stats[j]).1) >= 10_000_000_000
    }
}

/// A connection that has a bandwidth, and where not too few sends succeed.
pub open spec fn has_bandwidth(stats: LinkStats) -> bool {
    link_stats::above(stats.success_rate, link_stats::RANK_0_2) && stats.bandwidth_bps > 0
}

/// The connection at `i` is the first of those with the largest bandwidth; it
/// is the last if none has a bandwidth.
pub open spec fn widest(stats: Seq<(Seq<char>, LinkStats)>, i: int) -> bool {
    &&& 0 <= i < stats.len()
    &&& if has_bandwidth(stats[i].1) {
        forall|j: int|
            0 <= j < stats.len() && has_bandwidth((#[trigger] stats[j]).1)
                ==> stats[j].1.bandwidth_bps < stats[i].1.bandwidth_bps || stats[j].1.bandwidth_bps
                == stats[i].1.bandwidth_bps && i <= j
    } else {
        i == stats.len() - 1 && forall|j: int|
            0 <= j < stats.len() ==> !has_bandwidth((#[trigger] stats[j]).1)
    }
}

/// Distributes packets over connections.
#[derive(Debug, Clone)]
pub struct SimpleUdpAggregator {
    connections: VecMap<String, UdpConnection>,
    connection_order: Vec<String>,
    packets_sent: u64,
    bytes_sent: u64,
    link_stats: VecMap<String, LinkStats>,
    send_interval_us: u64,
    round_robin_index: u64,
    strategy: LoadBalanceStrategy,
}

impl SimpleUdpAggregator {
    /// The connections by name.
    pub closed spec fn conns(&self) -> Seq<(Seq<char>, UdpConnection)> {
        self.connections@
    }

    /// The names of the connections in the order of round-robin.
    pub closed spec fn order(&self) -> Seq<Seq<char>> {
        self.connection_order@.map_values(|s: String| s@)
    }

    /// The statistics by connection.
    pub closed spec fn statistics(&self) -> Seq<(Seq<char>, LinkStats)> {
        self.link_stats@
    }

    /// Packets and bytes sent, modulo the number of values of a counter.
    pub closed spec fn totals(&self) -> (u64, u64) {
        (self.packets_sent, self.bytes_sent)
    }

    /// How many round-robin choices were made, modulo the number of values of a
    /// counter.
    pub closed spec fn index(&self) -> u64 {
        self.round_robin_index
    }

    /// The strategy in use.
    pub closed spec fn strategy(&self) -> LoadBalanceStrategy {
        self.strategy
    }

    /// Microseconds between two packets; zero means that there is no limit.
    pub closed spec fn send_interval(&self) -> u64 {
        self.send_interval_us
    }

    /// Every connection has statistics, connections and statistics are in the
    /// same order, and round-robin knows exactly the connections there are.
    pub open spec fn wf(&self) -> bool {
        &&& vec_map::distinct(self.conns())
        &&& self.statistics().len() == self.conns().len()
        &&& forall|i: int|
            0 <= i < self.conns().len() ==> (#[trigger] self.statistics()[i]).0
                == self.conns()[i].0
        &&& forall|i: int|
            0 <= i < self.order().len() ==> vec_map::has(self.conns(), #[trigger] self.order()[i])
        &&& forall|i: int|
            0 <= i < self.conns().len() ==> self.order().contains((#[trigger] self.conns()[i]).0)
    }

    /// Creates an aggregator without connections.
    pub fn new(strategy: LoadBalanceStrategy) -> (a: SimpleUdpAggregator)
        ensures
            a.wf(),
            a.conns().len() == 0,
            a.order().len() == 0,
            a.statistics().len() == 0,
            a.totals() == (0u64, 0u64),
            a.index() == 0,
            a.strategy() == strategy,
            a.send_interval() == 0,
    {
        SimpleUdpAggregator {
            connections: VecMap::new(),
            connection_order: Vec::new(),
            packets_sent: 0,
            bytes_sent: 0,
            link_stats: VecMap::new(),
            send_interval_us: 0,
            round_robin_index: 0,
            strategy,
        }
    }

    /// Adds a connection, with statistics of its own, at the end of the
    /// round-robin order.
    pub fn add_connection(&mut self, key: String, connection: UdpConnection, now: Instant)
        requires
            old(self).wf(),
        ensures
            final(self).wf(),
            final(self).conns() == vec_map::with(old(self).conns(), key@, connection),
            final(self).order() == old(self).order().push(key@),
            final(self).statistics() == vec_map::with(
                old(self).statistics(),
                key@,
                (LinkStats {
                    packets_sent: 0,
                    bytes_sent: 0,
                    bandwidth_bps: 0,
                    last_update: now,
                    window_bytes: 0,
                    window_start: now,
                    success_rate: Measure { rank: Some(link_stats::RANK_1) },
                    loss_rate: Measure { rank: Some(0) },
                    avg_rtt: None,
                }),
            ),
            final(self).totals() == old(self).totals(),
            final(self).index() == old(self).index(),
            final(self).strategy() == old(self).strategy(),
            final(self).send_interval() == old(self).send_interval(),
    {
        let ghost conns = self.conns();
        let ghost stats = self.statistics();
        let ghost order = self.order();
        proof {
            same_place(conns, stats, key@);
            vec_map::place_is_first(conns, key@);
            vec_map::place_is_first(stats, key@);
            vec_map::with_stores(conns, key@, connection);
        }
        self.connections.insert(key.clone(), connection);
        let fresh = LinkStats::new(now);
        self.link_stats.insert(key.clone(), fresh);
        let ghost k = key@;
        self.connection_order.push(key);
        proof {
            assert(self.order() =~= order.push(k));
            assert forall|i: int| 0 <= i < self.order().len() implies vec_map::has(
                self.conns(),
                #[trigger] self.order()[i],
            ) by {
                let name = self.order()[i];
                if i < order.len() {
                    assert(order[i] == name);
                    if name != k {
                        assert(vec_map::value(self.conns(), name) == vec_map::value(conns, name));
                    }
                }
                if !vec_map::has(self.conns(), name) {
                    assert(vec_map::value(self.conns(), name) is None);
                }
            }
            assert forall|i: int| 0 <= i < self.conns().len() implies self.order().contains(
                (#[trigger] self.conns()[i]).0,
            ) by {
                let name = self.conns()[i].0;
                if name == k {
                    assert(self.order()[order.len() as int] == k);
                } else {
                    assert(conns[i].0 == name);
                    let j = choose|j: int| 0 <= j < order.len() && order[j] == name;
                    assert(self.order()[j] == name);
                }
            }
        }
    }

    /// Returns the number of connections.
    pub fn connection_count(&self) -> (n: usize)
        ensures
            n == self.conns().len(),
    {
        self.connections.len()
    }

    /// Returns packets and bytes sent.
    pub fn stats(&self) -> (r: (u64, u64))
        ensures
            r == self.totals(),
    {
        (self.packets_sent, self.bytes_sent)
    }

    /// Returns name and statistics of the connection at `i`.
    pub fn link_stats(&self, i: usize) -> (r: Option<(&String, &LinkStats)>)
        ensures
            match r {
                Some((key, stats)) => i < self.statistics().len() && self.statistics()[i as int] == (
                    key@,
                    *stats,
                ),
                None => i >= self.statistics().len(),
            },
    {
        if i < self.link_stats.len() {
            Some((self.link_stats.key_at(i), self.link_stats.value_at(i)))
        } else {
            None
        }
    }

    /// Limits the rate to a number of packets per second; zero removes the
    /// limit.
    pub fn set_rate_limit(&mut self, packets_per_second: u64)
        ensures
            final(self).send_interval() == (if packets_per_second == 0 {
                0
            } else {
                1_000_000int / packets_per_second as int
            }),
            final(self).conns() == old(self).conns(),
            final(self).order() == old(self).order(),
            final(self).statistics() == old(self).statistics(),
            final(self).totals() == old(self).totals(),
            final(self).index() == old(self).index(),
            final(self).strategy() == old(self).strategy(),
    {
        if packets_per_second > 0 {
            self.send_interval_us = 1_000_000 / packets_per_second;
        } else {
            self.send_interval_us = 0;
        }
    }

    /// Returns the microseconds between two packets; zero means that there is no
    /// limit.
    pub fn send_interval_us(&self) -> (us: u64)
        ensures
            us == self.send_interval(),
    {
        self.send_interval_us
    }

    /// The connection that a packet goes over.
    pub open spec fn chooses(&self, key: Seq<char>) -> bool {
        match self.strategy() {
            LoadBalanceStrategy::FastestFirst => exists|i: int| #[trigger]
                fastest(self.statistics(), i) && self.statistics()[i].0 == key,
            LoadBalanceStrategy::WeightedByBandwidth => exists|i: int| #[trigger]
                widest(self.statistics(), i) && self.statistics()[i].0 == key,
            _ => self.order().len() > 0 && key == self.order()[self.index() as usize as int
                % self.order().len() as int],
        }
    }

    /// The strategy goes through the connections in turn.
    pub open spec fn takes_turns(&self) -> bool {
        !(self.strategy() is FastestFirst) && !(self.strategy() is WeightedByBandwidth)
    }

    fn select_connection_round_robin_force(&mut self) -> (key: String)
        requires
            old(self).order().len() > 0,
        ensures
            key@ == old(self).order()[old(self).index() as usize as int % old(self).order().len() as int],
            final(self).conns() == old(self).conns(),
            final(self).order() == old(self).order(),
            final(self).statistics() == old(self).statistics(),
            final(self).totals() == old(self).totals(),
            final(self).strategy() == old(self).strategy(),
            final(self).send_interval() == old(self).send_interval(),
            final(self).index() == link_state::counted_up(old(self).index(), 1),
    {
        let index: usize = self.round_robin_index as usize;
        self.round_robin_index = self.round_robin_index.wrapping_add(1);
        let selected: usize = index % self.connection_order.len();
        self.connection_order[selected].clone()
    }

    fn select_fastest_connection(&self) -> (best: usize)
        requires
            self.statistics().len() > 0,
        ensures
            fastest(self.statistics(), best as int),
    {
        let n: usize = self.link_stats.len();
        let mut best: usize = 0;
        let mut best_rtt: u128 = 10_000_000_000;
        let mut i: usize = 0;
        while i < n
            invariant
                i <= n,
                n == self.link_stats@.len(),
                n > 0,
                best < n,
                best_rtt <= 10_000_000_000,
                best_rtt < 10_000_000_000 ==> best < i && best_rtt == effective_rtt(
                    self.link_stats@[best as int].1,
                ),
                best_rtt == 10_000_000_000 ==> best == 0,
                forall|j: int|
                    0 <= j < i ==> best_rtt <= effective_rtt((#[trigger] self.link_stats@[j]).1),
                forall|j: int|
                    0 <= j < i && best_rtt < 10_000_000_000 && effective_rtt(
                        (#[trigger] self.link_stats@[j]).1,
                    ) == best_rtt ==> best <= j,
            decreases n - i,
        {
            let stats = self.link_stats.value_at(i);
            let rtt: u128 = if link_stats::is_above(stats.success_rate, link_stats::RANK_0_2) {
                match stats.avg_rtt {
                    Some(rtt) => rtt.nanos,
                    None => 50_000_000,
                }
            } else {
                100_000_000
            };
            if rtt < best_rtt {
                best_rtt = rtt;
                best = i;
            }
            i = i + 1;
        }
        best
    }

    fn select_connection_by_bandwidth(&self) -> (best: usize)
        requires
            self.statistics().len() > 0,
        ensures
            widest(self.statistics(), best as int),
    {
        let n: usize = self.link_stats.len();
        let mut best: usize = 0;
        let mut best_bandwidth: u64 = 0;
        let mut i: usize = 0;
        while i < n
            invariant
                i <= n,
                n == self.link_stats@.len(),
                n > 0,
                best < n,
                best_bandwidth > 0 ==> best < i && has_bandwidth(self.link_stats@[best as int].1)
                    && best_bandwidth == self.link_stats@[best as int].1.bandwidth_bps,
                best_bandwidth == 0 ==> best == (if i == 0 {
                    0
                } else {
                    i - 1
                }),
                forall|j: int|
                    0 <= j < i && has_bandwidth((#[trigger] self.link_stats@[j]).1)
                        ==> self.link_stats@[j].1.bandwidth_bps <= best_bandwidth,
                forall|j: int|
                    0 <= j < i && has_bandwidth((#[trigger] self.link_stats@[j]).1)
                        && self.link_stats@[j].1.bandwidth_bps == best_bandwidth ==> best <= j,
            decreases n - i,
        {
            let stats = self.link_stats.value_at(i);
            if link_stats::is_above(stats.success_rate, link_stats::RANK_0_2)
                && stats.bandwidth_bps > best_bandwidth {
                best_bandwidth = stats.bandwidth_bps;
                best = i;
            } else if best_bandwidth == 0 {
                best = i;
            }
            i = i + 1;
        }
        best
    }

    /// Chooses the connection over which the next packet goes.
    pub fn select_connection(&mut self) -> (r: Result<Selected, AggregatorError>)
        requires
            old(self).wf(),
        ensures
            final(self).wf(),
            final(self).conns() == old(self).conns(),
            final(self).order() == old(self).order(),
            final(self).statistics() == old(self).statistics(),
            final(self).totals() == old(self).totals(),
            final(self).strategy() == old(self).strategy(),
            final(self).send_interval() == old(self).send_interval(),
            final(self).index() == (if old(self).conns().len() > 0 && old(self).takes_turns() {
                link_state::counted_up(old(self).index(), 1)
            } else {
                old(self).index() as nat
            }),
            match r {
                Err(e) => e is NoConnections && old(self).conns().len() == 0,
                Ok(selected) => {
                    &&& old(self).conns().len() > 0
                    &&& old(self).chooses(selected.key@)
                    &&& vec_map::value(old(self).conns(), selected.key@) matches Some(c)
                        && selected.target == c.target_addr
                },
            },
    {
        if self.connections.is_empty() {
            return Err(AggregatorError::NoConnections);
        }
        let ghost before = *self;
        proof {
            assert(self.order().contains(self.conns()[0].0));
        }
        let key = match self.strategy {
            LoadBalanceStrategy::FastestFirst => {
                let i: usize = self.select_fastest_connection();
                assert(before.statistics()[i as int].0 == before.conns()[i as int].0);
                self.link_stats.key_at(i).clone()
            },
            LoadBalanceStrategy::WeightedByBandwidth => {
                let i: usize = self.select_connection_by_bandwidth();
                assert(before.statistics()[i as int].0 == before.conns()[i as int].0);
                self.link_stats.key_at(i).clone()
            },
            LoadBalanceStrategy::PacketRoundRobin
            | LoadBalanceStrategy::WeightedByPacketLoss
            | LoadBalanceStrategy::DynamicAdaptive => self.select_connection_round_robin_force(),
        };
        proof {
            vec_map::place_is_first(before.conns(), key@);
            if self.takes_turns() {
                let at = before.index() as usize as int % before.order().len() as int;
                assert(vec_map::has(before.conns(), before.order()[at]));
            }
        }
        let i: usize = self.connections.position(&key);
        let target = self.connections.value_at(i).target_addr;
        Ok(Selected { key, target })
    }

    /// Chooses the connection on which a drawn number falls, given the share of each.
    pub fn select_drawn_connection(&self, shares: &Vec<u32>, draw: u64) -> (r: Result<
        Selected,
        AggregatorError,
    >)
        requires
            shares@.len() == self.conns().len(),
        ensures
            match r {
                Err(e) => e is NoConnections && self.conns().len() == 0,
                Ok(selected) => exists|i: int| #[trigger]
                    shares::falls_on(shares@, draw, i) && selected.key@ == self.conns()[i].0
                        && selected.target == self.conns()[i].1.target_addr,
            },
    {
        if self.connections.is_empty() {
            return Err(AggregatorError::NoConnections);
        }
        let i: usize = shares::place_of(shares, draw);
        Ok(
            Selected {
                key: self.connections.key_at(i).clone(),
                target: self.connections.value_at(i).target_addr,
            },
        )
    }

    /// Nothing but totals and statistics may differ.
    pub open spec fn same_routes(&self, other: SimpleUdpAggregator) -> bool {
        &&& self.conns() == other.conns()
        &&& self.order() == other.order()
        &&& self.strategy() == other.strategy()
        &&& self.send_interval() == other.send_interval()
        &&& self.index() == other.index()
    }

    /// The statistics once those of a connection have been replaced.
    pub open spec fn with_stats(&self, key: Seq<char>, stats: LinkStats) -> Seq<
        (Seq<char>, LinkStats),
    > {
        self.statistics().update(vec_map::place(self.statistics(), key), (key, stats))
    }

    /// Takes note that `bytes` were sent over a connection. Returns the
    /// measurement window of the connection if it ended.
    pub fn record_success(&mut self, key: &String, bytes: usize, now: Instant) -> (closed: Option<
        ClosedWindow,
    >)
        requires
            old(self).wf(),
        ensures
            final(self).wf(),
            final(self).same_routes(*old(self)),
            final(self).totals().0 == link_state::counted_up(old(self).totals().0, 1),
            final(self).totals().1 == link_state::counted_up(old(self).totals().1, bytes as nat),
            match vec_map::value(old(self).statistics(), key@) {
                Some(stats) => {
                    &&& closed == stats.closed_window(now, bytes as nat)
                    &&& final(self).statistics() == old(self).with_stats(
                        key@,
                        stats.attempted(now, bytes as nat),
                    )
                },
                None => closed is None && final(self).statistics() == old(self).statistics(),
            },
    {
        self.packets_sent = self.packets_sent.wrapping_add(1);
        self.bytes_sent = self.bytes_sent.wrapping_add(bytes as u64);
        let i: usize = self.link_stats.position(key);
        if i < self.link_stats.len() {
            let stats = self.link_stats.value_at_mut(i);
            stats.update_send_stats(now, bytes)
        } else {
            None
        }
    }

    /// Takes note that sending `bytes` over a connection failed. Returns the
    /// measurement window of the connection if it ended.
    pub fn record_failure(&mut self, key: &String, bytes: usize, now: Instant) -> (closed: Option<
        ClosedWindow,
    >)
        requires
            old(self).wf(),
        ensures
            final(self).wf(),
            final(self).same_routes(*old(self)),
            final(self).totals() == old(self).totals(),
            match vec_map::value(old(self).statistics(), key@) {
                Some(stats) => {
                    &&& closed == stats.closed_window(now, bytes as nat)
                    &&& final(self).statistics() == old(self).with_stats(
                        key@,
                        (LinkStats {
                            avg_rtt: Some(Duration { nanos: 1_000_000_000 }),
                            ..stats.attempted(now, bytes as nat)
                        }),
                    )
                },
                None => closed is None && final(self).statistics() == old(self).statistics(),
            },
    {
        let i: usize = self.link_stats.position(key);
        if i < self.link_stats.len() {
            let stats = self.link_stats.value_at_mut(i);
            let closed = stats.update_send_stats(now, bytes);
            stats.record_send_failure();
            closed
        } else {
            None
        }
    }

    /// Stores the bandwidth computed from a measurement window.
    pub fn set_bandwidth(&mut self, key: &String, bandwidth_bps: u64)
        requires
            old(self).wf(),
        ensures
            final(self).wf(),
            final(self).same_routes(*old(self)),
            final(self).totals() == old(self).totals(),
            final(self).statistics() == (match vec_map::value(old(self).statistics(), key@) {
                Some(stats) => old(self).with_stats(key@, (LinkStats { bandwidth_bps, ..stats })),
                None => old(self).statistics(),
            }),
    {
        let i: usize = self.link_stats.position(key);
        if i < self.link_stats.len() {
            let stats = self.link_stats.value_at_mut(i);
            stats.bandwidth_bps = bandwidth_bps;
        }
    }

    /// Stores success rate and loss rate of a connection.
    pub fn set_rates(&mut self, key: &String, success_rate: Measure, loss_rate: Measure)
        requires
            old(self).wf(),
        ensures
            final(self).wf(),
            final(self).same_routes(*old(self)),
            final(self).totals() == old(self).totals(),
            final(self).statistics() == (match vec_map::value(old(self).statistics(), key@) {
                Some(stats) => old(self).with_stats(
                    key@,
                    (LinkStats { success_rate, loss_rate, ..stats }),
                ),
                None => old(self).statistics(),
            }),
    {
        let i: usize = self.link_stats.position(key);
        if i < self.link_stats.len() {
            let stats = self.link_stats.value_at_mut(i);
            stats.set_rates(success_rate, loss_rate);
        }
    }

    /// Estimates the round-trip time of a connection.
    pub fn estimate_rtt(&mut self, key: &String, penalty: u64)
        requires
            old(self).wf(),
        ensures
            final(self).wf(),
            final(self).same_routes(*old(self)),
            final(self).totals() == old(self).totals(),
            final(self).statistics() == (match vec_map::value(old(self).statistics(), key@) {
                Some(stats) => old(self).with_stats(
                    key@,
                    (LinkStats { avg_rtt: Some(stats.estimate(penalty as nat)), ..stats }),
                ),
                None => old(self).statistics(),
            }),
    {
        let i: usize = self.link_stats.position(key);
        if i < self.link_stats.len() {
            let stats = self.link_stats.value_at_mut(i);
            stats.estimate_rtt(penalty);
        }
    }
}

proof fn same_place(
    conns: Seq<(Seq<char>, UdpConnection)>,
    stats: Seq<(Seq<char>, LinkStats)>,
    key: Seq<char>,
)
    requires
        stats.len() == conns.len(),
        forall|i: int| 0 <= i < conns.len() ==> (#[trigger] stats[i]).0 == conns[i].0,
    ensures
        vec_map::place(stats, key) == vec_map::place(conns, key),
{
    vec_map::place_is_first(conns, key);
    let p = vec_map::place(conns, key);
    if p < conns.len() {
        assert(stats[p].0 == conns[p].0);
    }
    assert forall|j: int| 0 <= j < p implies (#[trigger] stats[j]).0 != key by {
        assert(conns[j].0 != key);
    }
    vec_map::place_found(stats, key, p);
}

/// As many consecutive choices as there are entries in the round-robin order reach
/// every connection, unless the counter starts again from zero among them and its
/// number of values is no multiple of the number of entries.
pub proof fn turns_reach_all(a: SimpleUdpAggregator, b: int) -> (k: int)
    requires
        a.takes_turns(),
        0 <= b < a.order().len(),
        a.index() as usize + a.order().len() - 1 <= usize::MAX || turns::usize_values() % (
        a.order().len() as int) == 0,
    ensures
        0 <= k < a.order().len(),
        a.order()[b] == a.order()[link_state::counted_up(
            a.index(),
            k as nat,
        ) as u64 as usize as int % a.order().len() as int],
{
    let k = turns::turns_reach_all(a.index() as usize, a.order().len() as int, b);
    turns::narrowed_counter(a.index(), k as nat);
    k
}

/// The interval of a rate limit is the longest one, in whole microseconds, at which
/// that many packets go out within a second.
pub proof fn rate_limit_interval_is_longest(packets_per_second: u64)
    requires
        packets_per_second > 0,
    ensures
        ({
            let interval = 1_000_000int / packets_per_second as int;
            interval * packets_per_second <= 1_000_000 < (interval + 1) * packets_per_second
        }),
{
    let p = packets_per_second as int;
    let interval = 1_000_000int / p;
    vstd::arithmetic::div_mod::lemma_fundamental_div_mod(1_000_000, p);
    vstd::arithmetic::div_mod::lemma_mod_bound(1_000_000, p);
    assert(interval * p == p * interval && (interval + 1) * p == p * interval + p)
        by (nonlinear_arith);
}

} // verus!
