//! Unordered link aggregation configuration.
//!
//! Unordered aggregation prioritizes performance over strict ordering. It suits
//! protocols where the application layer handles ordering and reliability.
use crate::num::NonZeroUsize;
use crate::time::Duration;
use vstd::prelude::*;

verus! {

/// Load balancing strategy for unordered aggregation.
#[derive(Debug, Clone, Copy, PartialEq, Eq, Structural, Hash)]
pub enum LoadBalanceStrategy {
    /// Packet-level round-robin without session affinity.
    PacketRoundRobin,
    /// Always selects the link with the highest bandwidth.
    WeightedByBandwidth,
    /// Always uses the link with the lowest latency.
    FastestFirst,
    /// Links with lower packet loss get a higher weight.
    WeightedByPacketLoss,
    /// Weights follow recent performance, with a minimum share for every link.
    DynamicAdaptive,
}

impl Default for LoadBalanceStrategy {
    fn default() -> (strategy: Self)
        ensures
            strategy == LoadBalanceStrategy::PacketRoundRobin,
    {
        LoadBalanceStrategy::PacketRoundRobin
    }
}

/// Role of the node in aggregation, which decides the direction that counts.
#[derive(Debug, Clone, Copy, PartialEq, Eq, Structural, Hash)]
pub enum NodeRole {
    /// Prioritizes receiving bandwidth.
    Client,
    /// Prioritizes sending bandwidth.
    Server,
    /// Considers both directions equally.
    Balanced,
}

/// Configuration for unordered link aggregation.
#[derive(Debug, Clone, PartialEq, Eq, Hash)]
pub struct UnorderedCfg {
    /// Length of queue for sending data packets.
    pub send_queue: NonZeroUsize,
    /// Length of queue for received data packets.
    pub recv_queue: NonZeroUsize,
    /// Load balancing strategy for distributing packets across links.
    pub load_balance: LoadBalanceStrategy,
    /// Interval for sending heartbeat packets to detect link health.
    pub heartbeat_interval: Duration,
    /// Timeout for considering a link as failed.
    pub link_timeout: Duration,
    /// Maximum size of a single packet.
    pub max_packet_size: usize,
    /// Queue length for establishing new connections.
    pub connect_queue: NonZeroUsize,
    /// Link speed statistics interval durations.
    pub stats_intervals: Vec<Duration>,
    /// Node role for directional bandwidth prioritization.
    pub node_role: NodeRole,
}

/// What a configuration says.
#[verifier::ext_equal]
pub struct CfgModel {
    /// Length of queue for sending data packets.
    pub send_queue: nat,
    /// Length of queue for received data packets.
    pub recv_queue: nat,
    /// Load balancing strategy.
    pub load_balance: LoadBalanceStrategy,
    /// Heartbeat interval.
    pub heartbeat_interval: Duration,
    /// Link timeout.
    pub link_timeout: Duration,
    /// Maximum size of a single packet.
    pub max_packet_size: nat,
    /// Queue length for new connections.
    pub connect_queue: nat,
    /// Statistics intervals.
    pub stats_intervals: Seq<Duration>,
    /// Node role.
    pub node_role: NodeRole,
}

impl View for UnorderedCfg {
    type V = CfgModel;

    open spec fn view(&self) -> CfgModel {
        CfgModel {
            send_queue: self.send_queue@,
            recv_queue: self.recv_queue@,
            load_balance: self.load_balance,
            heartbeat_interval: self.heartbeat_interval,
            link_timeout: self.link_timeout,
            max_packet_size: self.max_packet_size as nat,
            connect_queue: self.connect_queue@,
            stats_intervals: self.stats_intervals@,
            node_role: self.node_role,
        }
    }
}

/// The span of `ms` milliseconds.
pub open spec fn millis(ms: nat) -> Duration {
    Duration { nanos: (ms * 1_000_000) as u128 }
}

impl CfgModel {
    /// Configuration for typical scenarios.
    pub open spec fn typical() -> CfgModel {
        CfgModel {
            send_queue: 256,
            recv_queue: 256,
            load_balance: LoadBalanceStrategy::PacketRoundRobin,
            heartbeat_interval: millis(100),
            link_timeout: millis(500),
            max_packet_size: 1472,
            connect_queue: 16,
            stats_intervals: seq![millis(100), millis(1_000), millis(10_000)],
            node_role: NodeRole::Balanced,
        }
    }

    /// Configuration for low latency.
    pub open spec fn low_latency() -> CfgModel {
        CfgModel {
            send_queue: 64,
            recv_queue: 64,
            load_balance: LoadBalanceStrategy::FastestFirst,
            heartbeat_interval: millis(50),
            link_timeout: millis(200),
            max_packet_size: 1200,
            ..CfgModel::typical()
        }
    }

    /// Configuration for high throughput.
    pub open spec fn high_throughput() -> CfgModel {
        CfgModel {
            send_queue: 1024,
            recv_queue: 1024,
            load_balance: LoadBalanceStrategy::WeightedByBandwidth,
            heartbeat_interval: millis(200),
            link_timeout: millis(1_000),
            max_packet_size: 8192,
            ..CfgModel::typical()
        }
    }

    /// Configuration for unreliable networks.
    pub open spec fn unreliable_network() -> CfgModel {
        CfgModel {
            load_balance: LoadBalanceStrategy::DynamicAdaptive,
            heartbeat_interval: millis(50),
            link_timeout: millis(150),
            max_packet_size: 1200,
            ..CfgModel::typical()
        }
    }

    /// The first issue with this configuration, if there is one.
    pub open spec fn issue(self) -> Option<Seq<char>> {
        if self.heartbeat_interval.nanos >= self.link_timeout.nanos {
            Some("heartbeat_interval must be less than link_timeout"@)
        } else if self.max_packet_size < 64 {
            Some("max_packet_size must be at least 64 bytes"@)
        } else if self.max_packet_size > 65507 {
            Some("max_packet_size cannot exceed 65507 bytes (standard limit)"@)
        } else if self.stats_intervals.len() == 0 {
            Some("at least one stats interval must be specified"@)
        } else {
            None
        }
    }

    /// A configuration that can be used.
    pub open spec fn valid(self) -> bool {
        &&& self.heartbeat_interval.nanos < self.link_timeout.nanos
        &&& 64 <= self.max_packet_size <= 65507
        &&& self.stats_intervals.len() > 0
    }
}

fn queue_len(n: usize) -> (q: NonZeroUsize)
    requires
        n != 0,
    ensures
        q@ == n,
{
    match NonZeroUsize::new(n) {
        Some(q) => q,
        None => {
            assert(false);
            vstd::pervasive::unreached()
        },
    }
}

impl Default for UnorderedCfg {
    /// Configuration for typical scenarios: low latency and high throughput
    /// with reasonable resource usage.
    fn default() -> (cfg: Self)
        ensures
            cfg@ == CfgModel::typical(),
    {
        let mut stats_intervals: Vec<Duration> = Vec::new();
        stats_intervals.push(Duration::from_millis(100));
        stats_intervals.push(Duration::from_secs(1));
        stats_intervals.push(Duration::from_secs(10));
        UnorderedCfg {
            send_queue: queue_len(256),
            recv_queue: queue_len(256),
            load_balance: LoadBalanceStrategy::default(),
            heartbeat_interval: Duration::from_millis(100),
            link_timeout: Duration::from_millis(500),
            max_packet_size: 1472,
            connect_queue: queue_len(16),
            stats_intervals,
            node_role: NodeRole::Balanced,
        }
    }
}

impl UnorderedCfg {
    /// Creates a configuration optimized for low-latency scenarios.
    pub fn low_latency() -> (cfg: Self)
        ensures
            cfg@ == CfgModel::low_latency(),
    {
        UnorderedCfg {
            send_queue: queue_len(64),
            recv_queue: queue_len(64),
            load_balance: LoadBalanceStrategy::FastestFirst,
            heartbeat_interval: Duration::from_millis(50),
            link_timeout: Duration::from_millis(200),
            max_packet_size: 1200,
            ..Self::default()
        }
    }

    /// Creates a configuration optimized for high-throughput scenarios.
    pub fn high_throughput() -> (cfg: Self)
        ensures
            cfg@ == CfgModel::high_throughput(),
    {
        UnorderedCfg {
            send_queue: queue_len(1024),
            recv_queue: queue_len(1024),
            load_balance: LoadBalanceStrategy::WeightedByBandwidth,
            heartbeat_interval: Duration::from_millis(200),
            link_timeout: Duration::from_secs(1),
            max_packet_size: 8192,
            ..Self::default()
        }
    }

    /// Creates a configuration optimized for unreliable networks.
    pub fn unreliable_network() -> (cfg: Self)
        ensures
            cfg@ == CfgModel::unreliable_network(),
    {
        UnorderedCfg {
            load_balance: LoadBalanceStrategy::DynamicAdaptive,
            heartbeat_interval: Duration::from_millis(50),
            link_timeout: Duration::from_millis(150),
            max_packet_size: 1200,
            ..Self::default()
        }
    }

    /// Validates the configuration and returns the first issue found.
    pub fn validate(&self) -> (r: Result<(), String>)
        ensures
            r is Ok <==> self@.valid(),
            match r {
                Ok(()) => self@.issue() is None,
                Err(text) => self@.issue() == Some(text@),
            },
    {
        if self.heartbeat_interval.nanos >= self.link_timeout.nanos {
            return Err("heartbeat_interval must be less than link_timeout".to_owned());
        }
        if self.max_packet_size < 64 {
            return Err("max_packet_size must be at least 64 bytes".to_owned());
        }
        if self.max_packet_size > 65507 {
            return Err("max_packet_size cannot exceed 65507 bytes (standard limit)".to_owned());
        }
        if self.stats_intervals.len() == 0 {
            return Err("at least one stats interval must be specified".to_owned());
        }
        Ok(())
    }
}

/// Every preset passes validation.
pub proof fn presets_are_valid()
    ensures
        CfgModel::typical().valid(),
        CfgModel::low_latency().valid(),
        CfgModel::high_throughput().valid(),
        CfgModel::unreliable_network().valid(),
{
}

/// A configuration is valid exactly when no issue is found.
pub proof fn valid_means_no_issue(cfg: CfgModel)
    ensures
        cfg.valid() <==> cfg.issue() is None,
{
}

} // verus!
