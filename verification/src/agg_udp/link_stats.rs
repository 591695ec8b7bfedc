//! Statistics of a connection.
use crate::link_state;
use crate::load_balancer::Measure;
use crate::text;
use crate::time::{Duration, Instant};
use vstd::prelude::*;
use vstd::string::*;

verus! {

/// The rank of 0.2.
pub const RANK_0_2: i64 = 0x3FC9_9999_9999_999A;

/// The rank of 0.5.
pub const RANK_0_5: i64 = 0x3FE0_0000_0000_0000;

/// The rank of 0.8.
pub const RANK_0_8: i64 = 0x3FE9_9999_9999_999A;

/// The rank of 0.95.
pub const RANK_0_95: i64 = 0x3FEE_6666_6666_6666;

/// The rank of 1.
pub const RANK_1: i64 = 0x3FF0_0000_0000_0000;

/// Link performance statistics.
#[derive(Debug, Clone, Copy, PartialEq, Eq)]
pub struct LinkStats {
    /// Packets sent on this link.
    pub packets_sent: u64,
    /// Bytes sent on this link.
    pub bytes_sent: u64,
    /// Bytes per second in the last measurement window.
    pub bandwidth_bps: u64,
    /// Last update.
    pub last_update: Instant,
    /// Bytes sent in the current measurement window.
    pub window_bytes: u64,
    /// Start of the current measurement window.
    pub window_start: Instant,
    /// Share of sends that succeed.
    pub success_rate: Measure,
    /// Share of sends that fail.
    pub loss_rate: Measure,
    /// Estimated round-trip time.
    pub avg_rtt: Option<Duration>,
}

/// A measurement window that has ended.
#[derive(Debug, Clone, Copy, PartialEq, Eq, Structural)]
pub struct ClosedWindow {
    /// Bytes sent in the window.
    pub bytes: u64,
    /// Length of the window.
    pub elapsed: Duration,
}

/// How a bandwidth is shown.
#[derive(Debug, Clone, Copy, PartialEq, Eq, Structural)]
pub enum BandwidthLabel {
    /// In megabytes, with one decimal place.
    Mega(u64),
    /// In kilobytes.
    Kilo(u64),
    /// In bytes.
    Bytes(u64),
}

/// How a link is doing.
#[derive(Debug, Clone, Copy, PartialEq, Eq, Structural)]
pub enum LinkCondition {
    /// No activity, and most sends fail.
    Dead,
    /// Many sends fail.
    Poor,
    /// High latency.
    Slow,
    /// Carries traffic.
    Active,
    /// No traffic yet.
    Ready,
}

/// A quantity above the one with rank `r`.
pub open spec fn above(m: Measure, r: i64) -> bool {
    m.rank matches Some(x) && x > r
}

/// Returns whether a quantity lies above the one with rank `r`.
pub fn is_above(m: Measure, r: i64) -> (b: bool)
    ensures
        b == above(m, r),
{
    match m.rank {
        Some(x) => x > r,
        None => false,
    }
}

impl LinkStats {
    /// What becomes of the statistics when sending `bytes` was attempted at
    /// `now`. A measurement window that lasted five seconds ends.
    pub open spec fn attempted(self, now: Instant, bytes: nat) -> LinkStats {
        let ends = now.since(self.window_start) >= 5_000_000_000;
        LinkStats {
            packets_sent: link_state::counted_up(self.packets_sent, 1) as u64,
            bytes_sent: link_state::counted_up(self.bytes_sent, bytes) as u64,
            window_bytes: if ends {
                0
            } else {
                link_state::counted_up(self.window_bytes, bytes) as u64
            },
            window_start: if ends {
                now
            } else {
                self.window_start
            },
            last_update: now,
            ..self
        }
    }

    /// The measurement window that ends when sending `bytes` was attempted at
    /// `now`.
    pub open spec fn closed_window(self, now: Instant, bytes: nat) -> Option<ClosedWindow> {
        if now.since(self.window_start) >= 5_000_000_000 {
            Some(
                ClosedWindow {
                    bytes: link_state::counted_up(self.window_bytes, bytes) as u64,
                    elapsed: Duration { nanos: now.since(self.window_start) as u128 },
                },
            )
        } else {
            None
        }
    }

    /// The estimated round-trip time: by how many sends succeed, plus a penalty
    /// in milliseconds.
    pub open spec fn estimate(self, penalty: nat) -> Duration {
        let base: nat = if above(self.success_rate, RANK_0_95) {
            20
        } else if above(self.success_rate, RANK_0_8) {
            40
        } else {
            80
        };
        Duration { nanos: ((base + penalty) * 1_000_000) as u128 }
    }

    /// How this link is doing at `now`.
    pub open spec fn condition(self, now: Instant) -> LinkCondition {
        let recent = now.since(self.last_update) < 5_000_000_000;
        let good_rtt = self.avg_rtt matches Some(rtt) ==> rtt.nanos < 2_000_000_000;
        if !recent && above(self.loss_rate, RANK_0_5) {
            LinkCondition::Dead
        } else if above(self.loss_rate, RANK_0_2) {
            LinkCondition::Poor
        } else if !good_rtt {
            LinkCondition::Slow
        } else if self.bandwidth_bps > 0 || self.packets_sent > 0 {
            LinkCondition::Active
        } else {
            LinkCondition::Ready
        }
    }

    /// Creates the statistics of a new connection, which is assumed to be
    /// healthy.
    pub fn new(now: Instant) -> (stats: LinkStats)
        ensures
            stats == (LinkStats {
                packets_sent: 0,
                bytes_sent: 0,
                bandwidth_bps: 0,
                last_update: now,
                window_bytes: 0,
                window_start: now,
                success_rate: Measure { rank: Some(RANK_1) },
                loss_rate: Measure { rank: Some(0) },
                avg_rtt: None,
            }),
    {
        LinkStats {
            packets_sent: 0,
            bytes_sent: 0,
            bandwidth_bps: 0,
            last_update: now,
            window_bytes: 0,
            window_start: now,
            success_rate: Measure { rank: Some(RANK_1) },
            loss_rate: Measure { rank: Some(0) },
            avg_rtt: None,
        }
    }

    /// Counts an attempt to send. Returns the measurement window if it ended, for
    /// the bandwidth to be computed from it.
    pub fn update_send_stats(&mut self, now: Instant, bytes: usize) -> (closed: Option<ClosedWindow>)
        ensures
            *final(self) == old(self).attempted(now, bytes as nat),
            closed == old(self).closed_window(now, bytes as nat),
    {
        self.packets_sent = self.packets_sent.wrapping_add(1);
        self.bytes_sent = self.bytes_sent.wrapping_add(bytes as u64);
        self.window_bytes = self.window_bytes.wrapping_add(bytes as u64);
        let elapsed = now.duration_since(self.window_start);
        let closed = if elapsed.nanos >= 5_000_000_000 {
            let window = ClosedWindow { bytes: self.window_bytes, elapsed };
            self.window_bytes = 0;
            self.window_start = now;
            Some(window)
        } else {
            None
        };
        self.last_update = now;
        closed
    }

    /// Sets success rate and loss rate.
    pub fn set_rates(&mut self, success_rate: Measure, loss_rate: Measure)
        ensures
            *final(self) == (LinkStats { success_rate, loss_rate, ..*old(self) }),
    {
        self.success_rate = success_rate;
        self.loss_rate = loss_rate;
    }

    /// Takes note of a failed send: a round-trip time of one second is assumed.
    pub fn record_send_failure(&mut self)
        ensures
            *final(self) == (LinkStats {
                avg_rtt: Some(Duration { nanos: 1_000_000_000 }),
                ..*old(self)
            }),
    {
        self.avg_rtt = Some(Duration::from_millis(1000));
    }

    /// Estimates the round-trip time, `penalty` being the milliseconds added for
    /// the loss rate.
    pub fn estimate_rtt(&mut self, penalty: u64)
        ensures
            *final(self) == (LinkStats {
                avg_rtt: Some(old(self).estimate(penalty as nat)),
                ..*old(self)
            }),
    {
        let base: u128 = if is_above(self.success_rate, RANK_0_95) {
            20
        } else if is_above(self.success_rate, RANK_0_8) {
            40
        } else {
            80
        };
        self.avg_rtt = Some(Duration { nanos: (base + penalty as u128) * 1_000_000 });
    }

    /// Returns whether there was no activity for more than half a minute.
    pub fn is_idle(&self, now: Instant) -> (r: bool)
        ensures
            r == (now.since(self.last_update) > 30_000_000_000),
    {
        now.duration_since(self.last_update).nanos > 30_000_000_000
    }

    /// Returns how this link is doing.
    pub fn link_condition(&self, now: Instant) -> (c: LinkCondition)
        ensures
            c == self.condition(now),
    {
        let recent_activity = now.duration_since(self.last_update).nanos < 5_000_000_000;
        let has_traffic = self.bandwidth_bps > 0 || self.packets_sent > 0;
        let good_rtt = match self.avg_rtt {
            Some(rtt) => rtt.nanos < 2_000_000_000,
            None => true,
        };
        if !recent_activity && is_above(self.loss_rate, RANK_0_5) {
            LinkCondition::Dead
        } else if is_above(self.loss_rate, RANK_0_2) {
            LinkCondition::Poor
        } else if !good_rtt {
            LinkCondition::Slow
        } else if has_traffic {
            LinkCondition::Active
        } else {
            LinkCondition::Ready
        }
    }

    /// Returns how the bandwidth is shown.
    pub fn bandwidth_label(&self) -> (label: BandwidthLabel)
        ensures
            label == (if self.bandwidth_bps > 1_048_576 {
                BandwidthLabel::Mega(self.bandwidth_bps)
            } else if self.bandwidth_bps > 1024 {
                BandwidthLabel::Kilo(self.bandwidth_bps / 1024)
            } else {
                BandwidthLabel::Bytes(self.bandwidth_bps)
            }),
    {
        if self.bandwidth_bps > 1_048_576 {
            BandwidthLabel::Mega(self.bandwidth_bps)
        } else if self.bandwidth_bps > 1024 {
            BandwidthLabel::Kilo(self.bandwidth_bps / 1024)
        } else {
            BandwidthLabel::Bytes(self.bandwidth_bps)
        }
    }

    /// Returns how the round-trip time is shown.
    pub fn rtt_label(&self) -> (s: String)
        ensures
            s@ == (match self.avg_rtt {
                Some(rtt) => text::decimal(rtt.millis()) + "ms"@,
                None => "N/A"@,
            }),
    {
        match self.avg_rtt {
            Some(rtt) => text::decimal_text(rtt.as_millis()).concat("ms"),
            None => "N/A".to_owned(),
        }
    }
}

impl LinkCondition {
    /// Returns the word shown for this condition.
    pub fn label(&self) -> (s: &'static str)
        ensures
            s@ == (match *self {
                LinkCondition::Dead => "DEAD"@,
                LinkCondition::Poor => "POOR"@,
                LinkCondition::Slow => "SLOW"@,
                LinkCondition::Active => "ACTIVE"@,
                LinkCondition::Ready => "READY"@,
            }),
    {
        match self {
            LinkCondition::Dead => "DEAD",
            LinkCondition::Poor => "POOR",
            LinkCondition::Slow => "SLOW",
            LinkCondition::Active => "ACTIVE",
            LinkCondition::Ready => "READY",
        }
    }
}

/// The more sends succeed, the lower the estimated round-trip time, given the
/// same penalty.
pub proof fn estimate_is_monotonic(a: LinkStats, b: LinkStats, penalty: nat)
    requires
        a.success_rate.rank is Some,
        b.success_rate.rank is Some,
        a.success_rate.rank->0 <= b.success_rate.rank->0,
        penalty <= u64::MAX,
    ensures
        b.estimate(penalty).nanos <= a.estimate(penalty).nanos,
{
}

} // verus!
