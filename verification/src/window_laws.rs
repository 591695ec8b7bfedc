//! What callers can rely on of statistics over time.
use crate::link_state;
use crate::link_state::{Entry, LossRate, SendSpeed, UnorderedLinkState, WindowedStats};
use crate::time::{Duration, Instant};
use crate::unordered_cfg::UnorderedCfg;
use crate::unordered_msg::LinkId;
use vstd::prelude::*;

verus! {

/// Of a record that was made at `then`, what counts at `now`: all of it within the window,
/// nothing after it.
pub open spec fn still(n: u64, then: Instant, now: Instant, window: Duration) -> int {
    if now.nanos - then.nanos <= window.nanos {
        n as int
    } else {
        0
    }
}

pub(crate) proof fn one_more(s: Seq<Entry>, e: Entry)
    ensures
        link_state::successes(s.push(e)) == link_state::successes(s) + e.1,
        link_state::failures(s.push(e)) == link_state::failures(s) + e.2,
        link_state::bytes_in(s.push(e)) == link_state::bytes_in(s) + e.3,
{
    assert(s.push(e).drop_last() =~= s);
}

pub(crate) proof fn fresh_record_stays(s: Seq<Entry>, e: Entry, now: Instant, window: Duration)
    requires
        e.0 == now,
    ensures
        link_state::live(link_state::live(s, now, window).push(e), now, window)
            == link_state::live(s, now, window).push(e),
        link_state::live(s.push(e), now, window) == link_state::live(s, now, window).push(e),
    decreases s.len(),
{
    reveal_with_fuel(link_state::live, 2);
    let l = link_state::live(s, now, window);
    if s.len() > 0 && link_state::expired(s[0], now, window) {
        fresh_record_stays(s.drop_first(), e, now, window);
        assert(s.push(e).drop_first() =~= s.drop_first().push(e));
        assert(s.push(e)[0] == s[0]);
    } else {
        assert(l == s);
        if s.len() > 0 {
            assert(s.push(e)[0] == s[0]);
        } else {
            assert(s.push(e)[0] == e);
        }
    }
}

/// Two records count as long as they lie within the window, and no longer; the oldest that
/// counts starts the time over which the speed is taken.
pub proof fn records_count_within_the_window(
    window: Duration,
    created: WindowedStats,
    s1: &mut WindowedStats,
    s2: &mut WindowedStats,
    s3: &mut WindowedStats,
    s4: &mut WindowedStats,
    t1: Instant,
    t2: Instant,
    t3: Instant,
    a: (u64, u64, u64),
    b: (u64, u64, u64),
    rate: LossRate,
    speed: SendSpeed,
)
    requires
        t1.nanos <= t2.nanos <= t3.nanos,
        call_ensures(WindowedStats::new, (window,), created),
        *old(s1) == created,
        call_ensures(WindowedStats::add_record, (s1, t1, a.0, a.1, a.2), ()),
        *old(s2) == *final(s1),
        call_ensures(WindowedStats::add_record, (s2, t2, b.0, b.1, b.2), ()),
        *old(s3) == *final(s2),
        call_ensures(WindowedStats::windowed_packet_loss_rate, (s3, t3), rate),
        *old(s4) == *final(s3),
        call_ensures(WindowedStats::windowed_send_speed, (s4, t3), speed),
    ensures
        rate.successful == still(a.0, t1, t3, window) + still(b.0, t2, t3, window),
        rate.failed == still(a.1, t1, t3, window) + still(b.1, t2, t3, window),
        speed.bytes == still(a.2, t1, t3, window) + still(b.2, t2, t3, window),
        speed.elapsed.nanos == (if t3.nanos - t1.nanos <= window.nanos {
            t3.nanos - t1.nanos
        } else if t3.nanos - t2.nanos <= window.nanos {
            t3.nanos - t2.nanos
        } else {
            0
        }),
{
    reveal_with_fuel(link_state::live, 4);
    reveal_with_fuel(link_state::successes, 3);
    reveal_with_fuel(link_state::failures, 3);
    reveal_with_fuel(link_state::bytes_in, 3);
    let e1: Entry = (t1, a.0, a.1, a.2);
    let e2: Entry = (t2, b.0, b.1, b.2);
    let none = Seq::<Entry>::empty();
    let one = none.push(e1);
    let two = one.push(e2);
    fresh_record_stays(none, e1, t1, window);
    assert(final(s1).records() == one);
    fresh_record_stays(one, e2, t2, window);
    one_more(none, e1);
    one_more(one, e2);
    one_more(none, e2);
    assert(one.drop_first() =~= none);
    assert(two.drop_first() =~= none.push(e2));
    assert(none.push(e2).drop_first() =~= none);
    assert(one[0] == e1 && two[0] == e1 && none.push(e2)[0] == e2);
}

/// A send that succeeds raises the successes within the window by one and the bytes by its
/// length; one that fails raises the failures by one and changes nothing else.
pub proof fn sends_change_the_window(
    l1: &mut UnorderedLinkState,
    l2: &mut UnorderedLinkState,
    l3: &mut UnorderedLinkState,
    l4: &mut UnorderedLinkState,
    l5: &mut UnorderedLinkState,
    now: Instant,
    bytes: usize,
    before: LossRate,
    after: LossRate,
    last: LossRate,
)
    requires
        call_ensures(UnorderedLinkState::windowed_packet_loss_rate, (l1, now), before),
        *old(l2) == *final(l1),
        call_ensures(UnorderedLinkState::record_sent, (l2, now, bytes), ()),
        *old(l3) == *final(l2),
        call_ensures(UnorderedLinkState::windowed_packet_loss_rate, (l3, now), after),
        *old(l4) == *final(l3),
        call_ensures(UnorderedLinkState::record_send_failure, (l4, now), ()),
        *old(l5) == *final(l4),
        call_ensures(UnorderedLinkState::windowed_packet_loss_rate, (l5, now), last),
    ensures
        after.successful == before.successful + 1,
        after.failed == before.failed,
        last.successful == after.successful,
        last.failed == after.failed + 1,
{
    let w = old(l1).windowed_stats.window();
    let s0 = old(l1).windowed_stats.records();
    let s1 = final(l1).windowed_stats.records();
    let e: Entry = (now, 1, 0, bytes as u64);
    let f: Entry = (now, 0, 1, 0);
    link_state::live_idempotent(s0, now, w);
    fresh_record_stays(s1, e, now, w);
    one_more(s1, e);
    let s2 = s1.push(e);
    link_state::live_idempotent(s2, now, w);
    fresh_record_stays(s2, f, now, w);
    one_more(s2, f);
    link_state::live_idempotent(s2.push(f), now, w);
}

/// The bytes of a send count within the window until a minute has passed: of a link that
/// has sent once since it was added, all or nothing.
pub proof fn sent_bytes_count_for_a_minute(
    id: LinkId,
    name: String,
    created: UnorderedLinkState,
    l1: &mut UnorderedLinkState,
    l2: &mut UnorderedLinkState,
    l3: &mut UnorderedLinkState,
    t0: Instant,
    t1: Instant,
    t2: Instant,
    bytes: usize,
    speed: SendSpeed,
    rate: LossRate,
    overall: LossRate,
)
    requires
        t1.nanos <= t2.nanos,
        call_ensures(UnorderedLinkState::new, (id, name, t0), created),
        *old(l1) == created,
        call_ensures(UnorderedLinkState::record_sent, (l1, t1, bytes), ()),
        *old(l2) == *final(l1),
        call_ensures(UnorderedLinkState::windowed_send_speed, (l2, t2), speed),
        *old(l3) == *final(l2),
        call_ensures(UnorderedLinkState::windowed_packet_loss_rate, (l3, t2), rate),
        call_ensures(UnorderedLinkState::packet_loss_rate, (&*final(l3),), overall),
    ensures
        speed.bytes == (if t2.nanos - t1.nanos <= 60_000_000_000 {
            bytes as int
        } else {
            0
        }),
        rate.successful == (if t2.nanos - t1.nanos <= 60_000_000_000 {
            1int
        } else {
            0
        }),
        rate.failed == 0,
        overall.successful == 1,
        overall.failed == 0,
        final(l3).link_id == id,
        final(l3).last_seen == t1,
{
    reveal_with_fuel(link_state::live, 4);
    reveal_with_fuel(link_state::successes, 3);
    reveal_with_fuel(link_state::failures, 3);
    reveal_with_fuel(link_state::bytes_in, 3);
    let w = created.windowed_stats.window();
    let none = Seq::<Entry>::empty();
    let e: Entry = (t1, 1, 0, bytes as u64);
    assert(created.windowed_stats.records() =~= none);
    fresh_record_stays(none, e, t1, w);
    one_more(none, e);
    let one = none.push(e);
    assert(one.drop_first() =~= none);
    assert(one[0] == e);
    link_state::live_idempotent(one, t2, w);
}

/// A configuration is accepted exactly if heartbeats come more often than links time out,
/// packets have between 64 and 65507 bytes, and there is an interval for statistics.
pub proof fn sound_configurations_are_accepted(cfg: UnorderedCfg, r: Result<(), String>)
    requires
        call_ensures(UnorderedCfg::validate, (&cfg,), r),
    ensures
        r is Ok <==> cfg.heartbeat_interval.nanos < cfg.link_timeout.nanos && 64
            <= cfg.max_packet_size <= 65507 && cfg.stats_intervals@.len() > 0,
        cfg.heartbeat_interval.nanos >= cfg.link_timeout.nanos ==> (r matches Err(e) && e@
            == "heartbeat_interval must be less than link_timeout"@),
        cfg.heartbeat_interval.nanos < cfg.link_timeout.nanos && cfg.max_packet_size < 64 ==> (
        r matches Err(e) && e@ == "max_packet_size must be at least 64 bytes"@),
        cfg.heartbeat_interval.nanos < cfg.link_timeout.nanos && cfg.max_packet_size > 65507 ==> (
        r matches Err(e) && e@ == "max_packet_size cannot exceed 65507 bytes (standard limit)"@),
        cfg.heartbeat_interval.nanos < cfg.link_timeout.nanos && 64 <= cfg.max_packet_size <= 65507
            && cfg.stats_intervals@.len() == 0 ==> (r matches Err(e) && e@
            == "at least one stats interval must be specified"@),
{
}

/// Every preset is accepted. The one for low latency notices a broken link sooner than the
/// default, the one for unreliable networks sooner still, and the one for high throughput
/// later; it alone takes larger packets and longer queues.
pub proof fn presets_differ_as_promised(
    typical: UnorderedCfg,
    low: UnorderedCfg,
    high: UnorderedCfg,
    unreliable: UnorderedCfg,
    ok: Result<(), String>,
)
    requires
        call_ensures(UnorderedCfg::default, (), typical),
        call_ensures(UnorderedCfg::low_latency, (), low),
        call_ensures(UnorderedCfg::high_throughput, (), high),
        call_ensures(UnorderedCfg::unreliable_network, (), unreliable),
        call_ensures(UnorderedCfg::validate, (&typical,), ok) || call_ensures(
            UnorderedCfg::validate,
            (&low,),
            ok,
        ) || call_ensures(UnorderedCfg::validate, (&high,), ok) || call_ensures(
            UnorderedCfg::validate,
            (&unreliable,),
            ok,
        ),
    ensures
        ok is Ok,
        unreliable@.link_timeout.nanos < low@.link_timeout.nanos,
        low@.link_timeout.nanos < typical@.link_timeout.nanos,
        typical@.link_timeout.nanos < high@.link_timeout.nanos,
        low@.send_queue < typical@.send_queue < high@.send_queue,
        low@.recv_queue < typical@.recv_queue < high@.recv_queue,
        low@.max_packet_size < typical@.max_packet_size < high@.max_packet_size,
        low@.load_balance is FastestFirst,
        high@.load_balance is WeightedByBandwidth,
        unreliable@.load_balance is DynamicAdaptive,
        typical@.load_balance is PacketRoundRobin,
        typical@.connect_queue == low@.connect_queue == high@.connect_queue
            == unreliable@.connect_queue,
        typical@.stats_intervals == low@.stats_intervals,
        typical@.stats_intervals == high@.stats_intervals,
        typical@.stats_intervals == unreliable@.stats_intervals,
{
}

/// Dropping old records changes nothing that is told at that time, and all that is told at
/// once is what is told one by one.
pub proof fn old_records_do_not_count(
    s1: &mut WindowedStats,
    s2: &mut WindowedStats,
    s3: &mut WindowedStats,
    s4: &mut WindowedStats,
    now: Instant,
    direct: LossRate,
    info: (LossRate, SendSpeed, usize),
    speed: SendSpeed,
)
    requires
        call_ensures(WindowedStats::windowed_packet_loss_rate, (s1, now), direct),
        *old(s2) == *old(s1),
        call_ensures(WindowedStats::cleanup_old_entries, (s2, now), ()),
        *old(s3) == *final(s2),
        call_ensures(WindowedStats::get_debug_info, (s3, now), info),
        *old(s4) == *old(s1),
        call_ensures(WindowedStats::windowed_send_speed, (s4, now), speed),
    ensures
        info.0.failed == direct.failed,
        info.0.successful == direct.successful,
        info.1.bytes == speed.bytes,
        info.1.elapsed == speed.elapsed,
        info.2 == final(s2).records().len(),
{
    link_state::live_idempotent(old(s1).records(), now, old(s1).window());
}

/// Received bytes are added to what was received; the time is noted, and sends do not
/// change.
pub proof fn received_bytes_are_added(
    l: &mut UnorderedLinkState,
    now: Instant,
    bytes: usize,
    before: LossRate,
    after: LossRate,
)
    requires
        call_ensures(UnorderedLinkState::packet_loss_rate, (&*old(l),), before),
        call_ensures(UnorderedLinkState::record_received, (l, now, bytes), ()),
        call_ensures(UnorderedLinkState::packet_loss_rate, (&*final(l),), after),
    ensures
        final(l).bytes_received == (old(l).bytes_received + bytes) % 0x1_0000_0000_0000_0000,
        final(l).last_seen == now,
        final(l).bytes_sent == old(l).bytes_sent,
        final(l).windowed_stats == old(l).windowed_stats,
        after == before,
{
}

/// Reading what a link did within its window changes nothing that was counted since the link
/// was added, nor its name, health or last communication.
pub proof fn reading_changes_no_counter(
    s1: &mut UnorderedLinkState,
    s2: &mut UnorderedLinkState,
    now: Instant,
    rate: LossRate,
    speed: SendSpeed,
)
    requires
        call_ensures(UnorderedLinkState::windowed_packet_loss_rate, (s1, now), rate),
        *old(s2) == *final(s1),
        call_ensures(UnorderedLinkState::windowed_send_speed, (s2, now), speed),
    ensures
        final(s2).link_id == old(s1).link_id,
        final(s2).remote_addr@ == old(s1).remote_addr@,
        final(s2).is_healthy == old(s1).is_healthy,
        final(s2).last_seen == old(s1).last_seen,
        final(s2).bytes_sent == old(s1).bytes_sent,
        final(s2).bytes_received == old(s1).bytes_received,
        final(s2).successful_sends == old(s1).successful_sends,
        final(s2).failed_sends == old(s1).failed_sends,
{
    assert(final(s1).bytes_received == old(s1).bytes_received);
    assert(final(s2).bytes_received == old(s2).bytes_received);
}

} // verus!
