//! What callers of the client side can rely on.
use crate::addr::SocketAddr;
use crate::agg_udp::aggregator::{AggregatorError, Selected, SimpleUdpAggregator, UdpConnection};
use crate::agg_udp::link_stats::{BandwidthLabel, ClosedWindow, LinkCondition, LinkStats};
use crate::agg_udp::proxy;
use crate::agg_udp::proxy::{ClientStrategy, ServerCounters, UdpProxyClient, UdpProxyServer};
use crate::agg_udp::server::{ServerAggregator, ServerError, ServerSocket};
use crate::agg_udp::server_laws;
use crate::agg_udp::sessions;
use crate::agg_udp::sessions::{SessionTable, UdpSession};
use crate::agg_udp::shares;
use crate::load_balancer::Measure;
use crate::time::{Duration, Instant};
use crate::unordered_cfg::LoadBalanceStrategy;
use crate::vec_map;
use vstd::prelude::*;

verus! {

/// A packet goes to the target of one of the connections, or is refused if there is none.
/// Choosing changes no connection and no statistics.
pub proof fn packets_go_to_the_target(
    a: &mut SimpleUdpAggregator,
    r: Result<Selected, AggregatorError>,
)
    requires
        old(a).wf(),
        call_ensures(SimpleUdpAggregator::select_connection, (a,), r),
    ensures
        match r {
            Ok(s) => vec_map::value(old(a).conns(), s.key@) matches Some(c) && s.target
                == c.target_addr,
            Err(e) => e is NoConnections && old(a).conns().len() == 0,
        },
        final(a).conns() == old(a).conns(),
        final(a).order() == old(a).order(),
        final(a).statistics() == old(a).statistics(),
        final(a).totals() == old(a).totals(),
{
}

/// Where connections are taken in turn, the next packet goes over the connection that
/// was added next, the first following the last, as long as the counter does not start
/// again from zero.
pub proof fn connections_take_turns(
    a1: &mut SimpleUdpAggregator,
    a2: &mut SimpleUdpAggregator,
    first: Result<Selected, AggregatorError>,
    second: Result<Selected, AggregatorError>,
)
    requires
        old(a1).wf(),
        old(a1).strategy() is PacketRoundRobin || old(a1).strategy() is WeightedByPacketLoss || old(
            a1,
        ).strategy() is DynamicAdaptive,
        old(a1).index() < usize::MAX,
        old(a1).index() < u64::MAX,
        call_ensures(SimpleUdpAggregator::select_connection, (a1,), first),
        *old(a2) == *final(a1),
        call_ensures(SimpleUdpAggregator::select_connection, (a2,), second),
    ensures
        ({
            let order = old(a1).order();
            match (first, second) {
                (Err(_), Err(_)) => old(a1).conns().len() == 0,
                (Ok(s), Ok(t)) => exists|i: int|
                    0 <= i < order.len() && s.key@ == (#[trigger] order[i]) && t.key@
                        == order[server_laws::following(i, order.len())],
                _ => false,
            }
        }),
{
    let order = old(a1).order();
    let index = old(a1).index();
    if order.len() > 0 && first is Ok {
        let i = server_laws::next_place(index as int, order.len() as int);
        assert(final(a1).index() == index + 1);
        assert(first->Ok_0.key@ == order[i]);
        assert(second->Ok_0.key@ == order[server_laws::following(i, order.len())]);
    }
}

/// Where connections are taken in turn, the first packet of a new aggregator goes over the
/// connection that was added first.
pub proof fn turns_start_with_the_first_connection(
    strategy: LoadBalanceStrategy,
    created: SimpleUdpAggregator,
    a1: &mut SimpleUdpAggregator,
    a2: &mut SimpleUdpAggregator,
    a3: &mut SimpleUdpAggregator,
    k1: String,
    k2: String,
    c1: UdpConnection,
    c2: UdpConnection,
    t1: Instant,
    t2: Instant,
    r: Result<Selected, AggregatorError>,
)
    requires
        strategy is PacketRoundRobin || strategy is WeightedByPacketLoss || strategy is DynamicAdaptive,
        k1@ != k2@,
        call_ensures(SimpleUdpAggregator::new, (strategy,), created),
        *old(a1) == created,
        call_ensures(SimpleUdpAggregator::add_connection, (a1, k1, c1, t1), ()),
        *old(a2) == *final(a1),
        call_ensures(SimpleUdpAggregator::add_connection, (a2, k2, c2, t2), ()),
        *old(a3) == *final(a2),
        call_ensures(SimpleUdpAggregator::select_connection, (a3,), r),
    ensures
        r matches Ok(s) && s.key@ == k1@ && s.target == c1.target_addr,
{
    vec_map::with_stores(old(a1).conns(), k1@, c1);
    vec_map::with_stores(old(a2).conns(), k2@, c2);
    let order = old(a3).order();
    assert(order.len() == 2 && order[0] == k1@);
    assert(old(a3).index() == 0);
    assert(old(a3).index() as usize as int == 0);
    vstd::arithmetic::div_mod::lemma_small_mod(0, order.len());
    vec_map::place_is_first(old(a3).conns(), k1@);
    packets_go_to_the_target(a3, r);
}

/// A connection that is added can be chosen, comes last in turn, and starts with fresh
/// statistics. Nothing else changes.
pub proof fn added_connection_is_used(
    a: &mut SimpleUdpAggregator,
    key: String,
    connection: UdpConnection,
    now: Instant,
    before: usize,
    after: usize,
    other: Seq<char>,
)
    requires
        old(a).wf(),
        call_ensures(SimpleUdpAggregator::connection_count, (&*old(a),), before),
        call_ensures(SimpleUdpAggregator::add_connection, (a, key, connection, now), ()),
        call_ensures(SimpleUdpAggregator::connection_count, (&*final(a),), after),
    ensures
        vec_map::value(final(a).conns(), key@) == Some(connection),
        vec_map::value(final(a).statistics(), key@) matches Some(s) && {
            &&& s.packets_sent == 0
            &&& s.bytes_sent == 0
            &&& s.bandwidth_bps == 0
            &&& s.window_bytes == 0
            &&& s.last_update == now
            &&& s.window_start == now
            &&& s.avg_rtt is None
            &&& s.success_rate.rank == Some(0x3FF0_0000_0000_0000i64)
            &&& s.loss_rate.rank == Some(0i64)
        },
        final(a).order() == old(a).order().push(key@),
        other != key@ ==> vec_map::value(final(a).conns(), other) == vec_map::value(
            old(a).conns(),
            other,
        ),
        other != key@ ==> vec_map::value(final(a).statistics(), other) == vec_map::value(
            old(a).statistics(),
            other,
        ),
        after == before + (if vec_map::value(old(a).conns(), key@) is Some {
            0int
        } else {
            1
        }),
        final(a).totals() == old(a).totals(),
        final(a).strategy() == old(a).strategy(),
        final(a).send_interval() == old(a).send_interval(),
{
    statistics_are_distinct(*old(a));
    vec_map::with_stores(old(a).conns(), key@, connection);
    vec_map::place_is_first(old(a).conns(), key@);
    let fresh = LinkStats {
        packets_sent: 0,
        bytes_sent: 0,
        bandwidth_bps: 0,
        last_update: now,
        window_bytes: 0,
        window_start: now,
        success_rate: Measure { rank: Some(0x3FF0_0000_0000_0000i64) },
        loss_rate: Measure { rank: Some(0) },
        avg_rtt: None,
    };
    vec_map::with_stores(old(a).statistics(), key@, fresh);
}

proof fn statistics_are_distinct(a: SimpleUdpAggregator)
    requires
        a.wf(),
    ensures
        vec_map::distinct(a.statistics()),
{
    let s = a.statistics();
    assert forall|i: int, j: int| 0 <= i < j < s.len() implies (#[trigger] s[i]).0 != (
    #[trigger] s[j]).0 by {
        assert(s[i].0 == a.conns()[i].0 && s[j].0 == a.conns()[j].0);
    }
}

/// More than a fifth of the sends succeed.
pub open spec fn reliable(stats: LinkStats) -> bool {
    stats.success_rate.rank matches Some(r) && r > 0x3FC9_9999_9999_999A
}

/// The nanoseconds that a packet is expected to take: what was estimated, 50 ms without
/// an estimate, and 100 ms over a connection that is not reliable.
pub open spec fn expected_time(stats: LinkStats) -> nat {
    match (reliable(stats), stats.avg_rtt) {
        (false, _) => 100_000_000,
        (true, Some(rtt)) => rtt.nanos as nat,
        (true, None) => 50_000_000,
    }
}

/// Where the fastest connection is asked for, no connection is faster than the chosen
/// one, and of those that are as fast it was added first. Connections that take ten
/// seconds or more count as equally slow.
pub proof fn fastest_connection_is_taken(
    a: &mut SimpleUdpAggregator,
    r: Result<Selected, AggregatorError>,
    i: int,
    j: int,
)
    requires
        old(a).wf(),
        old(a).strategy() is FastestFirst,
        call_ensures(SimpleUdpAggregator::select_connection, (a,), r),
        0 <= i < old(a).statistics().len(),
        0 <= j < old(a).statistics().len(),
        r matches Ok(s) && s.key@ == old(a).statistics()[i].0,
    ensures
        ({
            let mine = expected_time(old(a).statistics()[i].1);
            let others = expected_time(old(a).statistics()[j].1);
            &&& mine < 10_000_000_000 || others >= 10_000_000_000
            &&& mine < 10_000_000_000 ==> mine < others || mine == others && i <= j
            &&& mine >= 10_000_000_000 ==> i == 0
        }),
{
    let stats = old(a).statistics();
    statistics_are_distinct(*old(a));
    let key = r->Ok_0.key@;
    let k = choose|k: int| #[trigger]
        crate::agg_udp::aggregator::fastest(stats, k) && stats[k].0 == key;
    assert(crate::agg_udp::aggregator::fastest(stats, k) && stats[k].0 == stats[i].0);
    assert(k == i) by {
        if k < i {
            assert(stats[k].0 != stats[i].0);
        } else if i < k {
            assert(stats[i].0 != stats[k].0);
        }
    }
    assert(stats[j] == stats[j]);
}

/// Where the connection with the largest bandwidth is asked for, no reliable connection
/// has more than the chosen one, and of those that have as much it was added first. If no
/// reliable connection has any, the last one is chosen.
pub proof fn widest_connection_is_taken(
    a: &mut SimpleUdpAggregator,
    r: Result<Selected, AggregatorError>,
    i: int,
    j: int,
)
    requires
        old(a).wf(),
        old(a).strategy() is WeightedByBandwidth,
        call_ensures(SimpleUdpAggregator::select_connection, (a,), r),
        0 <= i < old(a).statistics().len(),
        0 <= j < old(a).statistics().len(),
        r matches Ok(s) && s.key@ == old(a).statistics()[i].0,
    ensures
        ({
            let mine = old(a).statistics()[i].1;
            let others = old(a).statistics()[j].1;
            if reliable(mine) && mine.bandwidth_bps > 0 {
                reliable(others) ==> others.bandwidth_bps < mine.bandwidth_bps
                    || others.bandwidth_bps == mine.bandwidth_bps && i <= j
            } else {
                (reliable(others) ==> others.bandwidth_bps == 0) && i == old(
                    a,
                ).statistics().len() - 1
            }
        }),
{
    let stats = old(a).statistics();
    statistics_are_distinct(*old(a));
    let key = r->Ok_0.key@;
    let k = choose|k: int| #[trigger]
        crate::agg_udp::aggregator::widest(stats, k) && stats[k].0 == key;
    assert(crate::agg_udp::aggregator::widest(stats, k) && stats[k].0 == stats[i].0);
    assert(k == i) by {
        if k < i {
            assert(stats[k].0 != stats[i].0);
        } else if i < k {
            assert(stats[i].0 != stats[k].0);
        }
    }
    assert(stats[j] == stats[j]);
}

/// A packet that was sent counts in the totals and in the statistics of its connection,
/// and nowhere else. Counters wrap around.
pub proof fn sent_packets_are_counted(
    a: &mut SimpleUdpAggregator,
    key: &String,
    bytes: usize,
    now: Instant,
    closed: Option<ClosedWindow>,
    before: (u64, u64),
    after: (u64, u64),
    other: Seq<char>,
)
    requires
        old(a).wf(),
        call_ensures(SimpleUdpAggregator::stats, (&*old(a),), before),
        call_ensures(SimpleUdpAggregator::record_success, (a, key, bytes, now), closed),
        call_ensures(SimpleUdpAggregator::stats, (&*final(a),), after),
    ensures
        after.0 == (before.0 + 1) % 0x1_0000_0000_0000_0000,
        after.1 == (before.1 + bytes) % 0x1_0000_0000_0000_0000,
        vec_map::value(old(a).statistics(), key@) matches Some(s) ==> {
            vec_map::value(final(a).statistics(), key@) matches Some(t) && {
                &&& t.packets_sent == (s.packets_sent + 1) % 0x1_0000_0000_0000_0000
                &&& t.bytes_sent == (s.bytes_sent + bytes) % 0x1_0000_0000_0000_0000
                &&& t.last_update == now
                &&& t.bandwidth_bps == s.bandwidth_bps
                &&& t.success_rate == s.success_rate
                &&& t.loss_rate == s.loss_rate
                &&& t.avg_rtt == s.avg_rtt
            }
        },
        other != key@ ==> vec_map::value(final(a).statistics(), other) == vec_map::value(
            old(a).statistics(),
            other,
        ),
        final(a).conns() == old(a).conns(),
        final(a).order() == old(a).order(),
        final(a).index() == old(a).index(),
        final(a).strategy() == old(a).strategy(),
{
    statistics_are_distinct(*old(a));
    if let Some(s) = vec_map::value(old(a).statistics(), key@) {
        vec_map::with_stores(old(a).statistics(), key@, s.attempted(now, bytes as nat));
    }
}

/// A packet that could not be sent does not count in the totals. It counts as an attempt
/// over its connection, for which a round-trip time of one second is then assumed.
pub proof fn failed_packets_slow_their_connection(
    a: &mut SimpleUdpAggregator,
    key: &String,
    bytes: usize,
    now: Instant,
    closed: Option<ClosedWindow>,
    before: (u64, u64),
    after: (u64, u64),
    other: Seq<char>,
)
    requires
        old(a).wf(),
        call_ensures(SimpleUdpAggregator::stats, (&*old(a),), before),
        call_ensures(SimpleUdpAggregator::record_failure, (a, key, bytes, now), closed),
        call_ensures(SimpleUdpAggregator::stats, (&*final(a),), after),
    ensures
        after == before,
        vec_map::value(old(a).statistics(), key@) matches Some(s) ==> {
            vec_map::value(final(a).statistics(), key@) matches Some(t) && {
                &&& t.packets_sent == (s.packets_sent + 1) % 0x1_0000_0000_0000_0000
                &&& t.bytes_sent == (s.bytes_sent + bytes) % 0x1_0000_0000_0000_0000
                &&& t.last_update == now
                &&& t.bandwidth_bps == s.bandwidth_bps
                &&& t.success_rate == s.success_rate
                &&& t.loss_rate == s.loss_rate
                &&& (t.avg_rtt matches Some(rtt) && rtt.nanos == 1_000_000_000)
            }
        },
        other != key@ ==> vec_map::value(final(a).statistics(), other) == vec_map::value(
            old(a).statistics(),
            other,
        ),
        final(a).conns() == old(a).conns(),
        final(a).order() == old(a).order(),
        final(a).index() == old(a).index(),
        final(a).strategy() == old(a).strategy(),
{
    statistics_are_distinct(*old(a));
    if let Some(s) = vec_map::value(old(a).statistics(), key@) {
        vec_map::with_stores(
            old(a).statistics(),
            key@,
            LinkStats {
                avg_rtt: Some(Duration { nanos: 1_000_000_000 }),
                ..s.attempted(now, bytes as nat)
            },
        );
    }
}

/// Bandwidth, rates and estimate that are stored for a connection are stored for that
/// connection alone. The estimate is 20 ms where more than 95 of 100 sends succeed, 40 ms
/// where more than 80 do and 80 ms otherwise, plus the penalty.
pub proof fn measurements_belong_to_a_connection(
    a1: &mut SimpleUdpAggregator,
    a2: &mut SimpleUdpAggregator,
    a3: &mut SimpleUdpAggregator,
    key: &String,
    bandwidth: u64,
    success: Measure,
    loss: Measure,
    penalty: u64,
    other: Seq<char>,
)
    requires
        old(a1).wf(),
        call_ensures(SimpleUdpAggregator::set_bandwidth, (a1, key, bandwidth), ()),
        *old(a2) == *final(a1),
        call_ensures(SimpleUdpAggregator::set_rates, (a2, key, success, loss), ()),
        *old(a3) == *final(a2),
        call_ensures(SimpleUdpAggregator::estimate_rtt, (a3, key, penalty), ()),
    ensures
        vec_map::value(old(a1).statistics(), key@) matches Some(s) ==> {
            vec_map::value(final(a3).statistics(), key@) matches Some(t) && {
                &&& t.bandwidth_bps == bandwidth
                &&& t.success_rate == success
                &&& t.loss_rate == loss
                &&& (t.avg_rtt matches Some(rtt) && rtt.nanos == 1_000_000 * (penalty + (
                match success.rank {
                    Some(r) => if r > 0x3FEE_6666_6666_6666 {
                        20int
                    } else if r > 0x3FE9_9999_9999_999A {
                        40
                    } else {
                        80
                    },
                    None => 80,
                })))
                &&& t.packets_sent == s.packets_sent
                &&& t.bytes_sent == s.bytes_sent
                &&& t.window_bytes == s.window_bytes
                &&& t.window_start == s.window_start
                &&& t.last_update == s.last_update
            }
        },
        other != key@ ==> vec_map::value(final(a3).statistics(), other) == vec_map::value(
            old(a1).statistics(),
            other,
        ),
        final(a3).totals() == old(a1).totals(),
        final(a3).conns() == old(a1).conns(),
        final(a3).order() == old(a1).order(),
        final(a3).index() == old(a1).index(),
{
    statistics_are_distinct(*old(a1));
    if let Some(s) = vec_map::value(old(a1).statistics(), key@) {
        let s1 = LinkStats { bandwidth_bps: bandwidth, ..s };
        let s2 = LinkStats { success_rate: success, loss_rate: loss, ..s1 };
        let s3 = LinkStats { avg_rtt: Some(s2.estimate(penalty as nat)), ..s2 };
        vec_map::with_stores(old(a1).statistics(), key@, s1);
        statistics_are_distinct(*old(a2));
        vec_map::with_stores(old(a2).statistics(), key@, s2);
        statistics_are_distinct(*old(a3));
        vec_map::with_stores(old(a3).statistics(), key@, s3);
    }
}

/// Where a number of packets per second is asked for, that many intervals fit into a
/// second, and longer ones would not. Without a limit there is no interval.
pub proof fn rate_limit_sets_the_interval(a: &mut SimpleUdpAggregator, pps: u64, us: u64)
    requires
        call_ensures(SimpleUdpAggregator::set_rate_limit, (a, pps), ()),
        call_ensures(SimpleUdpAggregator::send_interval_us, (&*final(a),), us),
    ensures
        pps == 0 ==> us == 0,
        pps > 0 ==> us * pps <= 1_000_000 < (us + 1) * pps,
        final(a).conns() == old(a).conns(),
        final(a).order() == old(a).order(),
        final(a).statistics() == old(a).statistics(),
        final(a).totals() == old(a).totals(),
        final(a).index() == old(a).index(),
{
    if pps > 0 {
        crate::agg_udp::aggregator::rate_limit_interval_is_longest(pps);
    }
}

/// A measurement window ends with the first attempt five seconds or more after its start,
/// and then holds all that was attempted since: of two attempts, of which only the second
/// ends it, both count. The next window starts then, and is empty.
pub proof fn windows_hold_what_was_attempted(
    s1: &mut LinkStats,
    s2: &mut LinkStats,
    t1: Instant,
    t2: Instant,
    b1: usize,
    b2: usize,
    first: Option<ClosedWindow>,
    second: Option<ClosedWindow>,
)
    requires
        old(s1).window_bytes + b1 + b2 <= u64::MAX,
        call_ensures(LinkStats::update_send_stats, (s1, t1, b1), first),
        *old(s2) == *final(s1),
        call_ensures(LinkStats::update_send_stats, (s2, t2, b2), second),
    ensures
        first is Some <==> t1.nanos - old(s1).window_start.nanos >= 5_000_000_000,
        first matches Some(w) ==> {
            &&& w.bytes == old(s1).window_bytes + b1
            &&& w.elapsed.nanos == t1.nanos - old(s1).window_start.nanos
            &&& final(s1).window_bytes == 0
            &&& final(s1).window_start == t1
        },
        first is None && second is None ==> final(s2).window_bytes == old(s1).window_bytes + b1
            + b2 && final(s2).window_start == old(s1).window_start,
        first is None ==> (second matches Some(w) ==> {
            &&& w.bytes == old(s1).window_bytes + b1 + b2
            &&& w.elapsed.nanos == t2.nanos - old(s1).window_start.nanos
        }),
        first is Some ==> (second matches Some(w) ==> w.bytes == b2 && w.elapsed.nanos
            == t2.nanos - t1.nanos),
{
}

/// A link is dead if for five seconds nothing was attempted and more than half of the
/// sends fail, else poor if more than a fifth fail, else slow if a round trip takes two
/// seconds or more, else active if it has carried anything.
pub proof fn conditions_are_ranked(s: LinkStats, now: Instant, c: LinkCondition, idle: bool)
    requires
        call_ensures(LinkStats::link_condition, (&s, now), c),
        call_ensures(LinkStats::is_idle, (&s, now), idle),
    ensures
        ({
            let quiet = now.nanos - s.last_update.nanos >= 5_000_000_000;
            let half = s.loss_rate.rank matches Some(r) && r > 0x3FE0_0000_0000_0000;
            let fifth = s.loss_rate.rank matches Some(r) && r > 0x3FC9_9999_9999_999A;
            let late = s.avg_rtt matches Some(rtt) && rtt.nanos >= 2_000_000_000;
            &&& c is Dead <==> quiet && half
            &&& c is Poor <==> fifth && !(quiet && half)
            &&& c is Slow <==> late && !fifth
            &&& c is Ready <==> s.bandwidth_bps == 0 && s.packets_sent == 0 && !fifth && !late
        }),
        idle <==> now.nanos - s.last_update.nanos > 30_000_000_000,
{
}

/// The number shown for a bandwidth stands for it: to within a kilobyte where kilobytes
/// are shown, exactly otherwise. The larger the bandwidth, the larger the unit.
pub proof fn bandwidth_is_shown(s: LinkStats, label: BandwidthLabel)
    requires
        call_ensures(LinkStats::bandwidth_label, (&s,), label),
    ensures
        match label {
            BandwidthLabel::Mega(n) => n == s.bandwidth_bps && n > 1024 * 1024,
            BandwidthLabel::Kilo(n) => 1024 * n <= s.bandwidth_bps < 1024 * (n + 1) && 1024
                < s.bandwidth_bps <= 1024 * 1024,
            BandwidthLabel::Bytes(n) => n == s.bandwidth_bps && n <= 1024,
        },
{
}

proof fn touching_notes_the_packet(
    table: Seq<(SocketAddr, UdpSession)>,
    client: SocketAddr,
    socket: Option<usize>,
    now: Instant,
    other: SocketAddr,
)
    requires
        vec_map::distinct(table),
    ensures
        vec_map::distinct(sessions::touched(table, client, socket, now)),
        vec_map::value(sessions::touched(table, client, socket, now), client) matches Some(s)
            && s.last_activity == now,
        other != client ==> vec_map::value(sessions::touched(table, client, socket, now), other)
            == vec_map::value(table, other),
{
    let fresh = UdpSession {
        client_addr: client,
        last_activity: now,
        sequence: 0,
        server_socket: socket,
    };
    vec_map::with_stores(table, client, fresh);
    if let Some(session) = vec_map::value(table, client) {
        vec_map::with_stores(table, client, UdpSession { last_activity: now, ..session });
    }
}

proof fn listed_clients(table: Seq<(SocketAddr, UdpSession)>, client: SocketAddr)
    ensures
        table.map_values(|e: (SocketAddr, UdpSession)| e.0).contains(client) <==> vec_map::value(
            table,
            client,
        ) is Some,
{
    let list = table.map_values(|e: (SocketAddr, UdpSession)| e.0);
    vec_map::place_is_first(table, client);
    let p = vec_map::place(table, client);
    if p < table.len() {
        assert(list[p] == client);
    }
    if list.contains(client) {
        let i = choose|i: int| 0 <= i < list.len() && list[i] == client;
        assert(table[i].0 == client);
    }
}

/// Responses go to a client for a minute after its last packet: it is a target after
/// cleaning up within that time, and no longer after cleaning up later.
pub proof fn responses_go_out_for_a_minute(
    p1: &mut UdpProxyClient,
    p2: &mut UdpProxyClient,
    client: SocketAddr,
    draw: u64,
    t1: Instant,
    t2: Instant,
    r: Result<Selected, AggregatorError>,
    dropped: usize,
    targets: Vec<SocketAddr>,
)
    requires
        old(p1).wf(),
        call_ensures(UdpProxyClient::on_packet, (p1, client, draw, t1), r),
        *old(p2) == *final(p1),
        call_ensures(UdpProxyClient::cleanup_sessions, (p2, t2), dropped),
        call_ensures(UdpProxyClient::response_targets, (&*final(p2),), targets),
    ensures
        targets@.contains(client) <==> t2.nanos - t1.nanos <= 60_000_000_000,
{
    let table = old(p1).sessions.entries();
    table_is_distinct(*old(p1));
    touching_notes_the_packet(table, client, None, t1, client);
    let noted = old(p2).sessions.entries();
    sessions::cleanup_keeps_live_sessions(
        noted,
        t2,
        Duration { nanos: 60_000_000_000 },
        client,
    );
    listed_clients(final(p2).sessions.entries(), client);
}

proof fn table_is_distinct(p: UdpProxyClient)
    requires
        p.wf(),
    ensures
        vec_map::distinct(p.sessions.entries()),
{
    sessions::entries_are_distinct(&p.sessions);
}

/// A packet makes its client a target of responses, and no other: whether another client
/// is one stays as it was.
pub proof fn packets_add_their_client(
    p: &mut UdpProxyClient,
    client: SocketAddr,
    draw: u64,
    now: Instant,
    r: Result<Selected, AggregatorError>,
    before: Vec<SocketAddr>,
    after: Vec<SocketAddr>,
    other: SocketAddr,
)
    requires
        old(p).wf(),
        call_ensures(UdpProxyClient::response_targets, (&*old(p),), before),
        call_ensures(UdpProxyClient::on_packet, (p, client, draw, now), r),
        call_ensures(UdpProxyClient::response_targets, (&*final(p),), after),
    ensures
        after@.contains(client),
        other != client ==> (after@.contains(other) <==> before@.contains(other)),
{
    table_is_distinct(*old(p));
    touching_notes_the_packet(old(p).sessions.entries(), client, None, now, other);
    listed_clients(old(p).sessions.entries(), other);
    listed_clients(final(p).sessions.entries(), other);
    listed_clients(final(p).sessions.entries(), client);
}

/// A client is a target after cleaning up exactly if it was one and its last packet came
/// in no more than a minute ago. The others are counted.
pub proof fn silent_clients_get_no_responses(
    p: &mut UdpProxyClient,
    now: Instant,
    dropped: usize,
    before: Vec<SocketAddr>,
    after: Vec<SocketAddr>,
    client: SocketAddr,
)
    requires
        old(p).wf(),
        call_ensures(UdpProxyClient::response_targets, (&*old(p),), before),
        call_ensures(UdpProxyClient::cleanup_sessions, (p, now), dropped),
        call_ensures(UdpProxyClient::response_targets, (&*final(p),), after),
    ensures
        after@.contains(client) <==> (vec_map::value(old(p).sessions.entries(), client) matches Some(
            s,
        ) && now.nanos - s.last_activity.nanos <= 60_000_000_000),
        dropped == before@.len() - after@.len(),
        final(p).aggregator == old(p).aggregator,
        final(p).weights == old(p).weights,
{
    table_is_distinct(*old(p));
    sessions::cleanup_keeps_live_sessions(
        old(p).sessions.entries(),
        now,
        Duration { nanos: 60_000_000_000 },
        client,
    );
    listed_clients(final(p).sessions.entries(), client);
}

/// The server side remembers a client for five minutes after its last packet.
pub proof fn server_remembers_for_five_minutes(
    p1: &mut UdpProxyServer,
    p2: &mut UdpProxyServer,
    client: SocketAddr,
    socket: ServerSocket,
    len: usize,
    target: SocketAddr,
    t1: Instant,
    t2: Instant,
    r: Result<usize, ServerError>,
    dropped: usize,
    other: SocketAddr,
)
    requires
        old(p1).wf(),
        call_ensures(UdpProxyServer::on_packet, (p1, client, socket, len, target, t1), r),
        *old(p2) == *final(p1),
        call_ensures(UdpProxyServer::cleanup_sessions, (p2, t2), dropped),
    ensures
        vec_map::value(final(p2).table(), client) is Some <==> t2.nanos - t1.nanos
            <= 300_000_000_000,
        other != client ==> (vec_map::value(final(p2).table(), other) is Some <==> (vec_map::value(
            old(p1).table(),
            other,
        ) matches Some(s) && t2.nanos - s.last_activity.nanos <= 300_000_000_000)),
        vec_map::value(final(p2).targets(), client) == Some(target),
        other != client ==> vec_map::value(final(p2).targets(), other) == vec_map::value(
            old(p1).targets(),
            other,
        ),
        dropped == old(p2).table().len() - final(p2).table().len(),
{
    proxy::parts_are_distinct(&*old(p1));
    touching_notes_the_packet(old(p1).table(), client, Some(socket.id), t1, other);
    vec_map::with_stores(old(p1).targets(), client, target);
    sessions::cleanup_keeps_live_sessions(
        old(p2).table(),
        t2,
        Duration { nanos: 300_000_000_000 },
        client,
    );
    sessions::cleanup_keeps_live_sessions(
        old(p2).table(),
        t2,
        Duration { nanos: 300_000_000_000 },
        other,
    );
}

/// A packet counts as received when it comes in, and as forwarded once sending it to the
/// backend has succeeded; if that fails, the error is handed on and nothing counts.
/// Counters wrap around.
pub proof fn packets_are_counted_on_their_way(
    p1: &mut UdpProxyServer,
    p2: &mut UdpProxyServer,
    client: SocketAddr,
    socket: ServerSocket,
    len: usize,
    target: SocketAddr,
    backend: usize,
    t1: Instant,
    t2: Instant,
    r: Result<usize, ServerError>,
    outcome: Result<usize, String>,
    done: Result<(), ServerError>,
    before: ServerCounters,
    midway: ServerCounters,
    after: ServerCounters,
)
    requires
        old(p1).wf(),
        call_ensures(UdpProxyServer::counters, (&*old(p1),), before),
        call_ensures(UdpProxyServer::on_packet, (p1, client, socket, len, target, t1), r),
        call_ensures(UdpProxyServer::counters, (&*final(p1),), midway),
        *old(p2) == *final(p1),
        call_ensures(
            UdpProxyServer::complete_forward,
            (p2, backend, client, len, outcome, t2),
            done,
        ),
        call_ensures(UdpProxyServer::counters, (&*final(p2),), after),
    ensures
        midway.packets_received == (before.packets_received + 1) % 0x1_0000_0000_0000_0000,
        midway.bytes_received == (before.bytes_received + len) % 0x1_0000_0000_0000_0000,
        midway.packets_forwarded == before.packets_forwarded,
        midway.bytes_forwarded == before.bytes_forwarded,
        after.packets_received == midway.packets_received,
        after.bytes_received == midway.bytes_received,
        match outcome {
            Ok(_) => {
                &&& done is Ok
                &&& after.packets_forwarded == (before.packets_forwarded + 1)
                    % 0x1_0000_0000_0000_0000
                &&& after.bytes_forwarded == (before.bytes_forwarded + len)
                    % 0x1_0000_0000_0000_0000
                &&& server_laws::uses(final(p2).agg(), backend, client)
                &&& vec_map::value(final(p2).agg().activity(), client) == Some(t2)
            },
            Err(error) => {
                &&& (done matches Err(ServerError::BackendSendFailed(e)) && e@ == error@)
                &&& after.packets_forwarded == before.packets_forwarded
                &&& after.bytes_forwarded == before.bytes_forwarded
                &&& final(p2).agg() == old(p2).agg()
            },
        },
{
    proxy::parts_are_distinct(&*old(p2));
    if outcome is Ok {
        vec_map::with_stores(old(p2).agg().activity(), client, t2);
        let clients = crate::agg_udp::server::clients_of(old(p2).agg().users(), backend);
        assert(clients.push(client).last() == client);
        assert(clients.push(client).contains(client));
    }
}

/// The first connections up to `n` have these shares together.
pub open spec fn together(shares: Seq<u32>, n: int) -> int
    decreases n,
{
    if n <= 0 {
        0
    } else {
        together(shares, n - 1) + shares[n - 1]
    }
}

proof fn totals_are_sums(shares: Seq<u32>, n: int)
    requires
        0 <= n <= shares.len(),
    ensures
        shares::total(shares.take(n)) == together(shares, n),
    decreases n,
{
    if n > 0 {
        totals_are_sums(shares, n - 1);
        assert(shares.take(n).drop_last() =~= shares.take(n - 1));
    }
}

proof fn ones_are_counted(n: nat, i: int)
    requires
        0 <= i <= n,
    ensures
        together(Seq::new(n, |k: int| 1u32), i) == i,
    decreases i,
{
    if i > 0 {
        ones_are_counted(n, i - 1);
    }
}

/// A drawn number, taken modulo the sum of the shares, falls on the connection whose
/// share it lies in, one share after the other. A connection without a share is not
/// chosen, and if no connection has one, all are chosen alike.
pub proof fn draws_follow_shares(shares: &Vec<u32>, draw: u64, place: usize)
    requires
        shares@.len() > 0,
        call_ensures(shares::place_of, (shares, draw), place),
    ensures
        place < shares@.len(),
        ({
            let sum = together(shares@, shares@.len() as int);
            if sum > 0 {
                &&& shares@[place as int] > 0
                &&& together(shares@, place as int) <= draw as int % sum
                &&& draw as int % sum < together(shares@, place as int) + shares@[place as int]
            } else {
                place == draw as int % shares@.len() as int
            }
        }),
{
    let s = shares@;
    let n = s.len() as int;
    assert(s.take(n) =~= s);
    totals_are_sums(s, n);
    totals_are_sums(s, place as int);
    totals_are_sums(s, place + 1);
    if shares::total(s) == 0 {
        let ones = Seq::new(s.len(), |k: int| 1u32);
        assert(ones.take(n) =~= ones);
        totals_are_sums(ones, n);
        totals_are_sums(ones, place as int);
        totals_are_sums(ones, place + 1);
        ones_are_counted(s.len(), n);
        ones_are_counted(s.len(), place as int);
        ones_are_counted(s.len(), place + 1);
    }
}

/// Where connections are chosen at random, each of them is chosen by one drawn number
/// out of as many as there are connections.
pub proof fn random_choice_is_even(
    p: &mut UdpProxyClient,
    client: SocketAddr,
    draw: u64,
    now: Instant,
    r: Result<Selected, AggregatorError>,
)
    requires
        old(p).wf(),
        old(p).strategy is Random,
        old(p).aggregator.conns().len() > 0,
        call_ensures(UdpProxyClient::on_packet, (p, client, draw, now), r),
    ensures
        r matches Ok(s) && s.key@ == old(p).aggregator.conns()[draw as int % old(
            p,
        ).aggregator.conns().len() as int].0,
{
    let n = old(p).aggregator.conns().len();
    let shares = old(p).shares();
    let key = r->Ok_0.key@;
    let i = choose|i: int| #[trigger]
        shares::falls_on(shares, draw, i) && key == old(p).aggregator.conns()[i].0;
    let ones = Seq::new(n, |k: int| 1u32);
    assert(shares =~= ones);
    assert(ones.take(n as int) =~= ones);
    totals_are_sums(ones, n as int);
    totals_are_sums(ones, i);
    totals_are_sums(ones, i + 1);
    ones_are_counted(n, n as int);
    ones_are_counted(n, i);
    ones_are_counted(n, i + 1);
}

/// Where connections are chosen by weight, one whose weight was set to zero carries
/// nothing, as long as another has a weight.
pub proof fn weightless_connections_rest(
    p1: &mut UdpProxyClient,
    p2: &mut UdpProxyClient,
    key: String,
    client: SocketAddr,
    draw: u64,
    now: Instant,
    r: Result<Selected, AggregatorError>,
    other: int,
)
    requires
        old(p1).wf(),
        old(p1).strategy is Weighted,
        0 <= other < old(p1).aggregator.conns().len(),
        old(p1).aggregator.conns()[other].0 != key@,
        vec_map::value(old(p1).weights@, old(p1).aggregator.conns()[other].0) matches Some(w) ==> w
            > 0,
        call_ensures(UdpProxyClient::set_weight, (p1, key, 0), ()),
        *old(p2) == *final(p1),
        call_ensures(UdpProxyClient::on_packet, (p2, client, draw, now), r),
    ensures
        r matches Ok(s) && s.key@ != key@,
{
    vec_map::with_stores(old(p1).weights@, key@, 0);
    let conns = old(p2).aggregator.conns();
    let shares = old(p2).shares();
    let chosen = r->Ok_0.key@;
    let i = choose|i: int| #[trigger]
        shares::falls_on(shares, draw, i) && chosen == conns[i].0;
    let n = shares.len() as int;
    assert(shares[other] > 0);
    assert(shares.take(n) =~= shares);
    totals_are_sums(shares, n);
    totals_are_sums(shares, i);
    totals_are_sums(shares, i + 1);
    sum_is_positive(shares, n, other);
    if chosen == key@ {
        assert(shares[i] == 0);
    }
}

proof fn sum_is_positive(shares: Seq<u32>, n: int, at: int)
    requires
        0 <= at < n <= shares.len(),
        shares[at] > 0,
    ensures
        together(shares, n) > 0,
    decreases n,
{
    sums_are_natural(shares, n - 1);
    if at < n - 1 {
        sum_is_positive(shares, n - 1, at);
    }
}

proof fn sums_are_natural(shares: Seq<u32>, n: int)
    ensures
        together(shares, n) >= 0,
    decreases n,
{
    if n > 0 {
        sums_are_natural(shares, n - 1);
    }
}

/// With all links forced they are taken in turn whatever was asked for. Otherwise the
/// client side knows two names that the aggregation does not, and agrees with it on all
/// others.
pub proof fn names_stand_for_strategies(
    name: &str,
    forced: ClientStrategy,
    asked: ClientStrategy,
    balanced: LoadBalanceStrategy,
)
    requires
        call_ensures(proxy::client_strategy, (name, true), forced),
        call_ensures(proxy::client_strategy, (name, false), asked),
        call_ensures(proxy::parse_strategy, (name,), balanced),
    ensures
        forced == ClientStrategy::Balanced(LoadBalanceStrategy::PacketRoundRobin),
        asked is Random <==> name@ == "random"@,
        asked is Weighted <==> name@ == "weighted"@,
        asked matches ClientStrategy::Balanced(b) ==> b == balanced,
        balanced is WeightedByBandwidth <==> name@ == "weighted-bandwidth"@,
        balanced is FastestFirst <==> name@ == "fastest-first"@ || name@ == "fastest"@,
        balanced is WeightedByPacketLoss <==> name@ == "weighted-packet-loss"@,
        balanced is DynamicAdaptive <==> name@ == "dynamic-adaptive"@,
{
    reveal_strlit("random");
    reveal_strlit("weighted");
    reveal_strlit("weighted-bandwidth");
    reveal_strlit("fastest-first");
    reveal_strlit("fastest");
    reveal_strlit("weighted-packet-loss");
    reveal_strlit("dynamic-adaptive");
    assert("random"@.len() == 6 && "weighted"@.len() == 8 && "weighted-bandwidth"@.len() == 18);
    assert("fastest-first"@.len() == 13 && "fastest"@.len() == 7 && "weighted-packet-loss"@.len()
        == 20 && "dynamic-adaptive"@.len() == 16);
}

/// A new aggregator has no connections, so nothing can be sent, and has counted nothing.
pub proof fn new_aggregator_is_empty(
    strategy: LoadBalanceStrategy,
    created: SimpleUdpAggregator,
    a: &mut SimpleUdpAggregator,
    n: usize,
    totals: (u64, u64),
    us: u64,
    r: Result<Selected, AggregatorError>,
)
    requires
        call_ensures(SimpleUdpAggregator::new, (strategy,), created),
        call_ensures(SimpleUdpAggregator::connection_count, (&created,), n),
        call_ensures(SimpleUdpAggregator::stats, (&created,), totals),
        call_ensures(SimpleUdpAggregator::send_interval_us, (&created,), us),
        *old(a) == created,
        call_ensures(SimpleUdpAggregator::select_connection, (a,), r),
    ensures
        n == 0,
        totals == (0u64, 0u64),
        us == 0,
        r is Err,
        created.strategy() == strategy,
{
}

/// The statistics of each connection are listed under its name, in the order in which
/// connections were added.
pub proof fn statistics_are_listed(
    a: SimpleUdpAggregator,
    i: usize,
    entry: Option<(&String, &LinkStats)>,
    n: usize,
)
    requires
        a.wf(),
        call_ensures(SimpleUdpAggregator::connection_count, (&a,), n),
        call_ensures(SimpleUdpAggregator::link_stats, (&a, i), entry),
    ensures
        entry is Some <==> i < n,
        entry matches Some((key, stats)) ==> key@ == a.conns()[i as int].0 && vec_map::value(
            a.statistics(),
            key@,
        ) == Some(*stats),
{
    statistics_are_distinct(a);
    if i < n {
        let key = a.statistics()[i as int].0;
        assert forall|j: int| 0 <= j < i implies (#[trigger] a.statistics()[j]).0 != key by {
            assert(a.statistics()[j].0 != a.statistics()[i as int].0);
        }
        vec_map::place_found(a.statistics(), key, i as int);
    }
}

/// A drawn connection is the one at the place on which the drawn number falls.
pub proof fn drawn_connection_is_taken(
    a: SimpleUdpAggregator,
    shares: &Vec<u32>,
    draw: u64,
    place: usize,
    r: Result<Selected, AggregatorError>,
)
    requires
        shares@.len() == a.conns().len(),
        a.conns().len() > 0,
        call_ensures(shares::place_of, (shares, draw), place),
        call_ensures(SimpleUdpAggregator::select_drawn_connection, (&a, shares, draw), r),
    ensures
        r matches Ok(s) && s.key@ == a.conns()[place as int].0 && s.target == a.conns()[place as int].1.target_addr,
{
    if r is Ok {
        let s = r->Ok_0;
        let i = choose|i: int| #[trigger]
            shares::falls_on(shares@, draw, i) && s.key@ == a.conns()[i].0 && s.target
                == a.conns()[i].1.target_addr;
        shares::falls_on_one(shares@, draw, i, place as int);
    }
}

/// A client is new exactly if it had no session; its first packet makes one, later ones
/// mark it as used and leave the socket of the first.
pub proof fn sessions_start_with_the_first_packet(
    t1: &mut SessionTable,
    t2: &mut SessionTable,
    client: SocketAddr,
    s1: Option<usize>,
    s2: Option<usize>,
    at1: Instant,
    at2: Instant,
    new1: bool,
    new2: bool,
    before: usize,
    after: usize,
    listed: Vec<SocketAddr>,
)
    requires
        old(t1).wf(),
        call_ensures(SessionTable::len, (&*old(t1),), before),
        call_ensures(SessionTable::clients, (&*old(t1),), listed),
        call_ensures(SessionTable::touch, (t1, client, s1, at1), new1),
        *old(t2) == *final(t1),
        call_ensures(SessionTable::touch, (t2, client, s2, at2), new2),
        call_ensures(SessionTable::len, (&*final(t2),), after),
    ensures
        new1 <==> !listed@.contains(client),
        !new2,
        after == before + (if new1 {
            1int
        } else {
            0
        }),
        vec_map::value(final(t2).entries(), client) matches Some(s) && s.last_activity == at2 && (
        new1 ==> s.server_socket == s1 && s.client_addr == client),
{
    sessions::entries_are_distinct(&*old(t1));
    let table = old(t1).entries();
    listed_clients(table, client);
    vec_map::place_is_first(table, client);
    let fresh = UdpSession {
        client_addr: client,
        last_activity: at1,
        sequence: 0,
        server_socket: s1,
    };
    vec_map::with_stores(table, client, fresh);
    if let Some(session) = vec_map::value(table, client) {
        vec_map::with_stores(table, client, UdpSession { last_activity: at1, ..session });
    }
    let noted = old(t2).entries();
    vec_map::place_is_first(noted, client);
    let session = vec_map::value(noted, client)->0;
    vec_map::with_stores(noted, client, UdpSession { last_activity: at2, ..session });
}

/// A session expires once more time than the given one has passed since its last packet,
/// and not before; another packet starts the time anew.
pub proof fn sessions_expire_by_their_last_packet(
    client: SocketAddr,
    created: UdpSession,
    s: &mut UdpSession,
    t0: Instant,
    t1: Instant,
    t2: Instant,
    timeout: Duration,
    early: bool,
    late: bool,
)
    requires
        t0.nanos <= t2.nanos,
        t1.nanos <= t2.nanos,
        call_ensures(UdpSession::new, (client, t0), created),
        call_ensures(UdpSession::is_expired, (&created, t2, timeout), early),
        *old(s) == created,
        call_ensures(UdpSession::update_activity, (s, t1), ()),
        call_ensures(UdpSession::is_expired, (&*final(s), t2, timeout), late),
    ensures
        early <==> t2.nanos - t0.nanos > timeout.nanos,
        late <==> t2.nanos - t1.nanos > timeout.nanos,
        final(s).client_addr == client,
{
}

/// Cleaning up clients drops what cleaning up the aggregator drops, and leaves sessions,
/// targets and counters alone; so does taking note of a response.
pub proof fn server_side_hands_on(
    p1: &mut UdpProxyServer,
    p2: &mut UdpProxyServer,
    a1: &mut ServerAggregator,
    a2: &mut ServerAggregator,
    now: Instant,
    outcome: Result<usize, String>,
    dropped: usize,
    same: usize,
    r: Result<(), ServerError>,
    q: Result<(), ServerError>,
    view: &ServerAggregator,
)
    requires
        old(p1).wf(),
        *old(a1) == old(p1).agg(),
        call_ensures(UdpProxyServer::cleanup_clients, (p1, now), dropped),
        call_ensures(ServerAggregator::cleanup_expired_clients, (a1, now), same),
        *old(p2) == *final(p1),
        *old(a2) == old(p2).agg(),
        call_ensures(UdpProxyServer::complete_response, (p2, outcome), r),
        call_ensures(ServerAggregator::complete_response, (a2, outcome), q),
        call_ensures(UdpProxyServer::aggregator, (&*final(p2),), view),
    ensures
        dropped == same,
        final(p1).agg().activity() == final(a1).activity(),
        final(p1).agg().clients() == old(p1).agg().clients(),
        view.responses() == final(a2).responses(),
        r is Ok <==> q is Ok,
        final(p2).table() == old(p1).table(),
        final(p2).targets() == old(p1).targets(),
        final(p2).counts() == old(p1).counts(),
{
}

/// The rate limit is told once more than a thousand packets were sent, and not before; then
/// the status ends with it.
pub proof fn rate_is_told_after_a_thousand_packets(
    n: usize,
    lines: &Vec<String>,
    packets: u64,
    bytes: u64,
    us1: u64,
    us2: u64,
    pps1: &str,
    pps2: &str,
    s1: String,
    s2: String,
)
    requires
        call_ensures(proxy::status_text, (n, lines, packets, bytes, us1, pps1), s1),
        call_ensures(proxy::status_text, (n, lines, packets, bytes, us2, pps2), s2),
    ensures
        packets <= 1000 ==> s1@ == s2@,
        packets > 1000 && lines@.len() > 0 && us1 > 0 ==> (pps1@ + " pps"@).is_suffix_of(s1@),
        packets > 1000 && lines@.len() > 0 && us1 == 0 ==> "UNLIMITED"@.is_suffix_of(s1@),
{
    reveal_strlit(" pps");
    reveal_strlit("UNLIMITED");
    reveal_strlit("\nRate limit: UNLIMITED");
    let tail = pps1@ + " pps"@;
    if packets > 1000 && lines@.len() > 0 {
        let rate = proxy::rate_text(packets, us1, pps1@);
        let front = s1@.len() - rate.len();
        assert(s1@.skip(front) =~= rate);
        if us1 > 0 {
            assert(rate =~= "\nRate limit: "@ + tail);
            assert(s1@.subrange(s1@.len() - tail.len(), s1@.len() as int) =~= tail);
        } else {
            let last = "UNLIMITED"@;
            assert(s1@.subrange(s1@.len() - last.len(), s1@.len() as int) =~= last);
        }
    }
}

/// The texts for clients and backend connections tell one link from several, and use from
/// no use.
pub proof fn labels_tell_numbers(
    links: usize,
    clients: usize,
    client: String,
    backend: String,
)
    requires
        call_ensures(proxy::client_label, (links,), client),
        call_ensures(proxy::backend_label, (clients,), backend),
    ensures
        client@[0] == 'M' <==> links > 1,
        backend@[0] == 'A' <==> clients > 0,
{
    reveal_strlit("MULTI-LINK (");
    reveal_strlit("SINGLE-LINK (");
    reveal_strlit("ACTIVE (serving ");
    reveal_strlit("IDLE");
}

/// Where connections are not chosen at random, a packet goes over the connection that the
/// aggregator chooses, and the drawn number does not count.
pub proof fn balanced_packets_follow_the_aggregator(
    p: &mut UdpProxyClient,
    a: &mut SimpleUdpAggregator,
    client: SocketAddr,
    draw: u64,
    now: Instant,
    r: Result<Selected, AggregatorError>,
    s: Result<Selected, AggregatorError>,
)
    requires
        old(p).wf(),
        old(p).strategy is Balanced,
        *old(a) == old(p).aggregator,
        call_ensures(UdpProxyClient::on_packet, (p, client, draw, now), r),
        call_ensures(SimpleUdpAggregator::select_connection, (a,), s),
    ensures
        match (r, s) {
            (Ok(x), Ok(y)) => x.key@ == y.key@ && x.target == y.target,
            (Err(_), Err(_)) => true,
            _ => false,
        },
        final(p).aggregator.index() == final(a).index(),
{
    let stats = old(a).statistics();
    if r is Ok && s is Ok {
        let x = r->Ok_0.key@;
        let y = s->Ok_0.key@;
        if old(a).strategy() is FastestFirst {
            let i = choose|i: int| #[trigger]
                crate::agg_udp::aggregator::fastest(stats, i) && stats[i].0 == x;
            let j = choose|j: int| #[trigger]
                crate::agg_udp::aggregator::fastest(stats, j) && stats[j].0 == y;
            assert(stats[i].0 == x && stats[j].0 == y);
            assert(i == j);
        } else if old(a).strategy() is WeightedByBandwidth {
            let i = choose|i: int| #[trigger]
                crate::agg_udp::aggregator::widest(stats, i) && stats[i].0 == x;
            let j = choose|j: int| #[trigger]
                crate::agg_udp::aggregator::widest(stats, j) && stats[j].0 == y;
            assert(stats[i].0 == x && stats[j].0 == y);
            assert(i == j);
        }
    }
}

/// A new client side has no clients, and takes connections as it was told to.
pub proof fn new_client_side_is_empty(
    strategy: ClientStrategy,
    p: UdpProxyClient,
    targets: Vec<SocketAddr>,
)
    requires
        call_ensures(UdpProxyClient::new, (strategy,), p),
        call_ensures(UdpProxyClient::response_targets, (&p,), targets),
    ensures
        targets@.len() == 0,
        p.strategy == strategy,
        p.aggregator.conns().len() == 0,
        p.aggregator.strategy() == (match strategy {
            ClientStrategy::Balanced(b) => b,
            _ => LoadBalanceStrategy::PacketRoundRobin,
        }),
        p.weights@.len() == 0,
{
}

/// The weight of a connection: what was set for its name, else one.
pub open spec fn weight_of(p: UdpProxyClient, i: int) -> u32 {
    match vec_map::value(p.weights@, p.aggregator.conns()[i].0) {
        Some(w) => w,
        None => 1,
    }
}

/// Where connections are chosen by weight, a drawn number, taken modulo the sum of the
/// weights, falls on the connection in whose weight it lies, one after the other.
pub proof fn weighted_choice_follows_weights(
    p: &mut UdpProxyClient,
    client: SocketAddr,
    draw: u64,
    now: Instant,
    r: Result<Selected, AggregatorError>,
    weights: Seq<u32>,
)
    requires
        old(p).wf(),
        old(p).strategy is Weighted,
        weights.len() == old(p).aggregator.conns().len(),
        forall|i: int| 0 <= i < weights.len() ==> #[trigger] weights[i] == weight_of(*old(p), i),
        together(weights, weights.len() as int) > 0,
        call_ensures(UdpProxyClient::on_packet, (p, client, draw, now), r),
    ensures
        r matches Ok(s) && exists|i: int|
            0 <= i < weights.len() && s.key@ == (#[trigger] old(p).aggregator.conns()[i]).0
                && together(weights, i) <= draw as int % together(weights, weights.len() as int)
                < together(weights, i) + weights[i],
{
    let shares = old(p).shares();
    assert(shares =~= weights);
    let n = weights.len() as int;
    assert(weights.take(n) =~= weights);
    totals_are_sums(weights, n);
    let key = r->Ok_0.key@;
    let i = choose|i: int| #[trigger]
        shares::falls_on(shares, draw, i) && key == old(p).aggregator.conns()[i].0;
    totals_are_sums(weights, i);
    totals_are_sums(weights, i + 1);
    assert(old(p).aggregator.conns()[i].0 == key);
}

/// A packet that comes in on the server side goes over the connection to the backend that is
/// next in turn, and its client can then be answered over the socket it came in on.
pub proof fn packets_are_forwarded_in_turn(
    p: &mut UdpProxyServer,
    a: &mut ServerAggregator,
    client: SocketAddr,
    socket: ServerSocket,
    len: usize,
    target: SocketAddr,
    now: Instant,
    r: Result<usize, ServerError>,
    next: Option<usize>,
)
    requires
        old(p).wf(),
        *old(a) == old(p).agg(),
        call_ensures(UdpProxyServer::on_packet, (p, client, socket, len, target, now), r),
        call_ensures(ServerAggregator::select_backend_connection, (a,), next),
    ensures
        match (r, next) {
            (Ok(b), Some(c)) => b == c,
            (Err(e), None) => e is NoBackend,
            _ => false,
        },
        final(p).agg().index() == final(a).index(),
        exists|i: int|
            0 <= i < server_laws::links_at(final(p).agg(), client.host()).len() && (
            #[trigger] server_laws::links_at(final(p).agg(), client.host())[i]).1.local_addr
                == socket.local_addr,
{
    proxy::parts_are_distinct(&*old(p));
    let before = server_laws::links_at(old(p).agg(), client.host());
    let after = server_laws::links_at(final(p).agg(), client.host());
    assert(before == crate::agg_udp::server::links_of(old(p).agg().clients(), client.host()));
    assert(after == crate::agg_udp::server::links_of(final(p).agg().clients(), client.host()));
    if exists|i: int|
        0 <= i < before.len() && (#[trigger] before[i]).1.local_addr == socket.local_addr {
        assert(after == before);
    } else {
        assert(after[before.len() as int] == (client, socket));
    }
}

/// Cleaning up drops exactly the sessions without a packet within the given time, counts
/// them, and leaves the others as they are, in their order.
pub proof fn silent_sessions_are_dropped(
    t: &mut SessionTable,
    now: Instant,
    timeout: Duration,
    dropped: usize,
    client: SocketAddr,
    before: usize,
    after: usize,
)
    requires
        old(t).wf(),
        call_ensures(SessionTable::len, (&*old(t),), before),
        call_ensures(SessionTable::cleanup, (t, now, timeout), dropped),
        call_ensures(SessionTable::len, (&*final(t),), after),
    ensures
        dropped == before - after,
        vec_map::value(final(t).entries(), client) == (match vec_map::value(
            old(t).entries(),
            client,
        ) {
            Some(s) => if now.nanos - s.last_activity.nanos > timeout.nanos {
                None
            } else {
                Some(s)
            },
            None => None,
        }),
        final(t).entries() == old(t).entries().filter(
            |e: (SocketAddr, UdpSession)| now.nanos - e.1.last_activity.nanos <= timeout.nanos,
        ),
{
    sessions::entries_are_distinct(&*old(t));
    sessions::cleanup_keeps_live_sessions(old(t).entries(), now, timeout, client);
    live_sessions_in_order(old(t).entries(), now, timeout);
}

proof fn live_sessions_in_order(
    table: Seq<(SocketAddr, UdpSession)>,
    now: Instant,
    timeout: Duration,
)
    ensures
        sessions::unexpired(table, now, timeout) == table.filter(
            |e: (SocketAddr, UdpSession)| now.nanos - e.1.last_activity.nanos <= timeout.nanos,
        ),
    decreases table.len(),
{
    reveal(Seq::filter);
    if table.len() > 0 {
        live_sessions_in_order(table.drop_last(), now, timeout);
    }
}

/// A new server side knows no clients and has counted nothing; it works with the aggregator
/// that it was given.
pub proof fn new_server_side_is_empty(
    a: ServerAggregator,
    p: UdpProxyServer,
    counters: ServerCounters,
    used: &ServerAggregator,
)
    requires
        call_ensures(UdpProxyServer::new, (a,), p),
        call_ensures(UdpProxyServer::counters, (&p,), counters),
        call_ensures(UdpProxyServer::aggregator, (&p,), used),
    ensures
        counters.packets_received == 0 && counters.bytes_received == 0,
        counters.packets_forwarded == 0 && counters.bytes_forwarded == 0,
        *used == a,
        p.table().len() == 0,
        p.targets().len() == 0,
{
}

/// A session that starts on a socket remembers it.
pub proof fn sessions_remember_their_socket(
    client: SocketAddr,
    socket: usize,
    now: Instant,
    s: UdpSession,
    t: UdpSession,
)
    requires
        call_ensures(UdpSession::new_with_socket, (client, socket, now), s),
        call_ensures(UdpSession::new, (client, now), t),
    ensures
        s.server_socket == Some(socket),
        t.server_socket is None,
        s.client_addr == client && t.client_addr == client,
        s.last_activity == now && t.last_activity == now,
{
}

} // verus!
