//! State and statistics of a single link.
use crate::time::{Duration, Instant};
use crate::unordered_msg::LinkId;
use std::collections::VecDeque;
use vstd::prelude::*;

verus! {

/// One record of a statistics window: when it was made, successful sends,
/// failed sends and bytes sent.
pub type Entry = (Instant, u64, u64, u64);

/// The share of sends that failed, as the two numbers that make it up. The
/// share is zero if nothing was sent.
#[derive(Debug, Clone, Copy, PartialEq, Eq, Structural)]
pub struct LossRate {
    /// Number of failed sends.
    pub failed: u128,
    /// Number of successful sends.
    pub successful: u128,
}

/// A speed, as bytes over a span of time. It is zero if the span is zero.
#[derive(Debug, Clone, Copy, PartialEq, Eq, Structural)]
pub struct SendSpeed {
    /// Number of bytes.
    pub bytes: u128,
    /// The time that sending them took.
    pub elapsed: Duration,
}

/// A record that has left the window.
pub open spec fn expired(e: Entry, now: Instant, window: Duration) -> bool {
    now.since(e.0) > window.nanos
}

/// What is left of the records once those at the front that have left the
/// window are dropped.
pub open spec fn live(s: Seq<Entry>, now: Instant, window: Duration) -> Seq<Entry>
    decreases s.len(),
{
    if s.len() > 0 && expired(s[0], now, window) {
        live(s.drop_first(), now, window)
    } else {
        s
    }
}

/// Successful sends in all records.
pub open spec fn successes(s: Seq<Entry>) -> nat
    decreases s.len(),
{
    if s.len() == 0 {
        0
    } else {
        successes(s.drop_last()) + s.last().1 as nat
    }
}

/// Failed sends in all records.
pub open spec fn failures(s: Seq<Entry>) -> nat
    decreases s.len(),
{
    if s.len() == 0 {
        0
    } else {
        failures(s.drop_last()) + s.last().2 as nat
    }
}

/// Bytes sent in all records.
pub open spec fn bytes_in(s: Seq<Entry>) -> nat
    decreases s.len(),
{
    if s.len() == 0 {
        0
    } else {
        bytes_in(s.drop_last()) + s.last().3 as nat
    }
}

/// The loss rate of a list of records.
pub open spec fn loss_in(s: Seq<Entry>, rate: LossRate) -> bool {
    rate.failed == failures(s) && rate.successful == successes(s)
}

/// The send speed of a list of records at `now`, counted from the oldest.
pub open spec fn speed_in(s: Seq<Entry>, now: Instant, speed: SendSpeed) -> bool {
    &&& speed.bytes == bytes_in(s)
    &&& speed.elapsed.nanos == (if s.len() == 0 {
        0
    } else {
        now.since(s[0].0)
    })
}

/// Where records are in the order of their time, dropping the expired ones at
/// the front leaves exactly those that have not expired.
pub proof fn live_keeps_unexpired(s: Seq<Entry>, now: Instant, window: Duration)
    requires
        forall|i: int, j: int|
            0 <= i <= j < s.len() ==> (#[trigger] s[i]).0.nanos <= (#[trigger] s[j]).0.nanos,
    ensures
        live(s, now, window) == s.filter(|e: Entry| !expired(e, now, window)),
    decreases s.len(),
{
    let keep = |e: Entry| !expired(e, now, window);
    if s.len() == 0 {
        reveal(Seq::filter);
    } else if expired(s[0], now, window) {
        live_keeps_unexpired(s.drop_first(), now, window);
        assert(seq![s[0]] + s.drop_first() =~= s);
        Seq::filter_distributes_over_add(seq![s[0]], s.drop_first(), keep);
        reveal_with_fuel(Seq::filter, 2);
        assert(seq![s[0]].drop_last() =~= Seq::<Entry>::empty());
        assert(!keep(s[0]));
        assert(seq![s[0]].filter(keep) =~= Seq::<Entry>::empty());
        assert(Seq::<Entry>::empty() + s.drop_first().filter(keep) =~= s.drop_first().filter(keep));
    } else {
        assert forall|i: int| 0 <= i < s.len() implies keep(#[trigger] s[i]) by {
            assert(s[0].0.nanos <= s[i].0.nanos);
        }
        filter_all(s, keep);
    }
}

proof fn filter_all(s: Seq<Entry>, keep: spec_fn(Entry) -> bool)
    requires
        forall|i: int| 0 <= i < s.len() ==> keep(#[trigger] s[i]),
    ensures
        s.filter(keep) == s,
    decreases s.len(),
{
    reveal(Seq::filter);
    if s.len() > 0 {
        filter_all(s.drop_last(), keep);
        assert(s.drop_last().push(s.last()) =~= s);
    }
}

/// Dropping expired records twice is the same as once.
pub proof fn live_idempotent(s: Seq<Entry>, now: Instant, window: Duration)
    ensures
        live(live(s, now, window), now, window) == live(s, now, window),
    decreases s.len(),
{
    if s.len() > 0 && expired(s[0], now, window) {
        live_idempotent(s.drop_first(), now, window);
    }
}

/// Statistics over a sliding window of time.
#[derive(Debug, Clone)]
pub struct WindowedStats {
    entries: VecDeque<Entry>,
    window_duration: Duration,
}

impl WindowedStats {
    /// The records in the window, oldest first.
    pub closed spec fn records(&self) -> Seq<Entry> {
        self.entries@
    }

    /// The length of the window.
    pub closed spec fn window(&self) -> Duration {
        self.window_duration
    }

    /// Creates statistics without records.
    pub fn new(window_duration: Duration) -> (stats: WindowedStats)
        ensures
            stats.records() == Seq::<Entry>::empty(),
            stats.window() == window_duration,
    {
        WindowedStats { entries: VecDeque::new(), window_duration }
    }

    /// Adds a record made at `now`, and drops those that have left the window.
    pub fn add_record(&mut self, now: Instant, successful: u64, failed: u64, bytes_sent: u64)
        ensures
            final(self).window() == old(self).window(),
            final(self).records() == live(
                old(self).records().push((now, successful, failed, bytes_sent)),
                now,
                old(self).window(),
            ),
    {
        self.entries.push_back((now, successful, failed, bytes_sent));
        self.cleanup_old_entries(now);
    }

    /// Drops the records that have left the window.
    pub fn cleanup_old_entries(&mut self, now: Instant)
        ensures
            final(self).window() == old(self).window(),
            final(self).records() == live(old(self).records(), now, old(self).window()),
    {
        while self.entries.len() > 0
            invariant
                self.window_duration == old(self).window_duration,
                live(self.entries@, now, self.window_duration) == live(
                    old(self).entries@,
                    now,
                    self.window_duration,
                ),
            ensures
                self.entries@ == live(self.entries@, now, self.window_duration),
            decreases self.entries@.len(),
        {
            let oldest = self.entries[0].0;
            if now.duration_since(oldest).nanos > self.window_duration.nanos {
                let ghost before = self.entries@;
                let _ = self.entries.pop_front();
                assert(self.entries@ =~= before.drop_first());
            } else {
                break;
            }
        }
    }

    /// Returns the loss rate within the window.
    pub fn windowed_packet_loss_rate(&mut self, now: Instant) -> (rate: LossRate)
        ensures
            final(self).window() == old(self).window(),
            final(self).records() == live(old(self).records(), now, old(self).window()),
            loss_in(final(self).records(), rate),
    {
        self.cleanup_old_entries(now);
        let mut successful: u128 = 0;
        let mut failed: u128 = 0;
        let n: usize = self.entries.len();
        let mut i: usize = 0;
        while i < n
            invariant
                i <= n,
                n == self.entries@.len(),
                successful == successes(self.entries@.take(i as int)),
                failed == failures(self.entries@.take(i as int)),
                successful <= i * 0xFFFF_FFFF_FFFF_FFFF,
                failed <= i * 0xFFFF_FFFF_FFFF_FFFF,
            decreases n - i,
        {
            let e = self.entries[i];
            assert(self.entries@.take(i + 1).drop_last() =~= self.entries@.take(i as int));
            assert(i * 0xFFFF_FFFF_FFFF_FFFF + 0xFFFF_FFFF_FFFF_FFFF == (i + 1)
                * 0xFFFF_FFFF_FFFF_FFFF) by (nonlinear_arith);
            assert((i + 1) * 0xFFFF_FFFF_FFFF_FFFF <= 0xFFFF_FFFF_FFFF_FFFF * 0xFFFF_FFFF_FFFF_FFFF)
                by (nonlinear_arith)
                requires
                    i + 1 <= 0xFFFF_FFFF_FFFF_FFFF,
            ;
            successful = successful + e.1 as u128;
            failed = failed + e.2 as u128;
            i = i + 1;
        }
        assert(self.entries@.take(n as int) =~= self.entries@);
        LossRate { failed, successful }
    }

    /// Returns the send speed within the window, counted from its oldest
    /// record.
    pub fn windowed_send_speed(&mut self, now: Instant) -> (speed: SendSpeed)
        ensures
            final(self).window() == old(self).window(),
            final(self).records() == live(old(self).records(), now, old(self).window()),
            speed_in(final(self).records(), now, speed),
    {
        self.cleanup_old_entries(now);
        let n: usize = self.entries.len();
        if n == 0 {
            return SendSpeed { bytes: 0, elapsed: Duration { nanos: 0 } };
        }
        let mut bytes: u128 = 0;
        let mut i: usize = 0;
        while i < n
            invariant
                i <= n,
                n == self.entries@.len(),
                bytes == bytes_in(self.entries@.take(i as int)),
                bytes <= i * 0xFFFF_FFFF_FFFF_FFFF,
            decreases n - i,
        {
            let e = self.entries[i];
            assert(self.entries@.take(i + 1).drop_last() =~= self.entries@.take(i as int));
            assert(i * 0xFFFF_FFFF_FFFF_FFFF + 0xFFFF_FFFF_FFFF_FFFF == (i + 1)
                * 0xFFFF_FFFF_FFFF_FFFF) by (nonlinear_arith);
            assert((i + 1) * 0xFFFF_FFFF_FFFF_FFFF <= 0xFFFF_FFFF_FFFF_FFFF * 0xFFFF_FFFF_FFFF_FFFF)
                by (nonlinear_arith)
                requires
                    i + 1 <= 0xFFFF_FFFF_FFFF_FFFF,
            ;
            bytes = bytes + e.3 as u128;
            i = i + 1;
        }
        assert(self.entries@.take(n as int) =~= self.entries@);
        SendSpeed { bytes, elapsed: now.duration_since(self.entries[0].0) }
    }

    /// Returns loss rate, send speed and number of records.
    pub fn get_debug_info(&mut self, now: Instant) -> (info: (LossRate, SendSpeed, usize))
        ensures
            final(self).window() == old(self).window(),
            final(self).records() == live(old(self).records(), now, old(self).window()),
            loss_in(final(self).records(), info.0),
            speed_in(final(self).records(), now, info.1),
            info.2 == final(self).records().len(),
    {
        let loss = self.windowed_packet_loss_rate(now);
        let speed = self.windowed_send_speed(now);
        proof {
            live_idempotent(old(self).records(), now, old(self).window());
        }
        (loss, speed, self.entries.len())
    }
}

/// The number of bytes or sends after `n` more. Counters wrap around.
pub open spec fn counted_up(counter: u64, n: nat) -> nat {
    (counter as nat + n) % 0x1_0000_0000_0000_0000
}

/// State of a link, without its transport.
#[derive(Debug, Clone)]
pub struct UnorderedLinkState {
    /// Link identifier.
    pub link_id: LinkId,
    /// Remote address for display.
    pub remote_addr: String,
    /// Last successful communication time.
    pub last_seen: Instant,
    /// Number of bytes sent through this link.
    pub bytes_sent: u64,
    /// Number of bytes received from this link.
    pub bytes_received: u64,
    /// Number of successful send operations.
    pub successful_sends: u64,
    /// Number of failed send operations.
    pub failed_sends: u64,
    /// Whether this link is considered healthy.
    pub is_healthy: bool,
    /// Statistics over the last minute.
    pub windowed_stats: WindowedStats,
}

impl UnorderedLinkState {
    /// The two states belong to the same link and differ at most in counters, records
    /// and the time of the last communication.
    pub open spec fn same_link(self, other: UnorderedLinkState) -> bool {
        &&& self.link_id == other.link_id
        &&& self.remote_addr@ == other.remote_addr@
        &&& self.is_healthy == other.is_healthy
        &&& self.windowed_stats.window() == other.windowed_stats.window()
    }

    /// Nothing has been counted yet.
    pub open spec fn fresh(self) -> bool {
        &&& self.bytes_sent == 0
        &&& self.bytes_received == 0
        &&& self.successful_sends == 0
        &&& self.failed_sends == 0
        &&& self.is_healthy
        &&& self.windowed_stats.records().len() == 0
        &&& self.windowed_stats.window().nanos == 60_000_000_000
    }

    /// `after` is this state once `bytes` were sent at `now`.
    pub open spec fn sent(self, after: UnorderedLinkState, now: Instant, bytes: nat) -> bool {
        &&& after.same_link(self)
        &&& after.last_seen == now
        &&& after.bytes_sent == counted_up(self.bytes_sent, bytes)
        &&& after.bytes_received == self.bytes_received
        &&& after.successful_sends == counted_up(self.successful_sends, 1)
        &&& after.failed_sends == self.failed_sends
        &&& after.windowed_stats.records() == live(
            self.windowed_stats.records().push((now, 1, 0, bytes as u64)),
            now,
            self.windowed_stats.window(),
        )
    }

    /// `after` is this state once a send failed at `now`.
    pub open spec fn send_failed(self, after: UnorderedLinkState, now: Instant) -> bool {
        &&& after.same_link(self)
        &&& after.last_seen == self.last_seen
        &&& after.bytes_sent == self.bytes_sent
        &&& after.bytes_received == self.bytes_received
        &&& after.successful_sends == self.successful_sends
        &&& after.failed_sends == counted_up(self.failed_sends, 1)
        &&& after.windowed_stats.records() == live(
            self.windowed_stats.records().push((now, 0, 1, 0)),
            now,
            self.windowed_stats.window(),
        )
    }

    /// `after` is this state once records that had left the window at `now` were
    /// dropped.
    pub open spec fn observed(self, after: UnorderedLinkState, now: Instant) -> bool {
        &&& after.same_link(self)
        &&& after.last_seen == self.last_seen
        &&& after.bytes_sent == self.bytes_sent
        &&& after.bytes_received == self.bytes_received
        &&& after.successful_sends == self.successful_sends
        &&& after.failed_sends == self.failed_sends
        &&& after.windowed_stats.records() == live(
            self.windowed_stats.records(),
            now,
            self.windowed_stats.window(),
        )
    }

    /// This state once `bytes` were received at `now`.
    pub open spec fn received(self, now: Instant, bytes: nat) -> UnorderedLinkState {
        UnorderedLinkState {
            last_seen: now,
            bytes_received: counted_up(self.bytes_received, bytes) as u64,
            ..self
        }
    }

    /// Creates the state of a new link.
    pub fn new(link_id: LinkId, remote_addr: String, now: Instant) -> (state: UnorderedLinkState)
        ensures
            state.link_id == link_id,
            state.remote_addr@ == remote_addr@,
            state.last_seen == now,
            state.fresh(),
    {
        UnorderedLinkState {
            link_id,
            remote_addr,
            last_seen: now,
            bytes_sent: 0,
            bytes_received: 0,
            successful_sends: 0,
            failed_sends: 0,
            is_healthy: true,
            windowed_stats: WindowedStats::new(Duration::from_secs(60)),
        }
    }

    /// Counts data that was sent.
    pub fn record_sent(&mut self, now: Instant, bytes: usize)
        ensures
            old(self).sent(*final(self), now, bytes as nat),
    {
        self.last_seen = now;
        self.bytes_sent = self.bytes_sent.wrapping_add(bytes as u64);
        self.successful_sends = self.successful_sends.wrapping_add(1);
        self.windowed_stats.add_record(now, 1, 0, bytes as u64);
    }

    /// Counts data that was received.
    pub fn record_received(&mut self, now: Instant, bytes: usize)
        ensures
            *final(self) == old(self).received(now, bytes as nat),
    {
        self.last_seen = now;
        self.bytes_received = self.bytes_received.wrapping_add(bytes as u64);
    }

    /// Counts a failed send.
    pub fn record_send_failure(&mut self, now: Instant)
        ensures
            old(self).send_failed(*final(self), now),
    {
        self.failed_sends = self.failed_sends.wrapping_add(1);
        self.windowed_stats.add_record(now, 0, 1, 0);
    }

    /// Returns the loss rate since the link was added.
    pub fn packet_loss_rate(&self) -> (rate: LossRate)
        ensures
            rate.failed == self.failed_sends,
            rate.successful == self.successful_sends,
    {
        LossRate { failed: self.failed_sends as u128, successful: self.successful_sends as u128 }
    }

    /// Returns the loss rate within the window.
    pub fn windowed_packet_loss_rate(&mut self, now: Instant) -> (rate: LossRate)
        ensures
            old(self).observed(*final(self), now),
            loss_in(final(self).windowed_stats.records(), rate),
    {
        self.windowed_stats.windowed_packet_loss_rate(now)
    }

    /// Returns the send speed within the window.
    pub fn windowed_send_speed(&mut self, now: Instant) -> (speed: SendSpeed)
        ensures
            old(self).observed(*final(self), now),
            speed_in(final(self).windowed_stats.records(), now, speed),
    {
        self.windowed_stats.windowed_send_speed(now)
    }
}

} // verus!
