//! Unordered aggregation messages.
//!
//! The protocol carries no sequence numbers and no acknowledgments: ordering
//! and reliability are left to the application.
use crate::addr::{IpAddr, Ipv4Addr, Ipv6Addr, SocketAddr};
use crate::num::NonZeroUsize;
use crate::time::Duration;
use crate::unordered_cfg;
use crate::unordered_cfg::{CfgModel, LoadBalanceStrategy, NodeRole, UnorderedCfg};
use crate::wire;
use crate::wire::{Cursor, MsgError};
use vstd::prelude::*;
use vstd::utf8;

verus! {

/// Identifies a link within an aggregation.
#[derive(Debug, Clone, Copy, PartialEq, Eq, Structural, Hash, PartialOrd, Ord)]
pub struct LinkId(pub u128);

/// Reasons why a connection might be refused.
#[derive(Debug, Clone, Copy, PartialEq, Eq, Structural)]
pub enum RefusedReason {
    /// Aggregation group not found.
    GroupNotFound,
    /// Aggregation group is full.
    GroupFull,
    /// Incompatible configuration.
    IncompatibleConfig,
    /// Server is shutting down.
    ServerShutdown,
    /// Authentication failed.
    AuthFailed,
    /// Rate limited.
    RateLimited,
}

/// Link status for unordered aggregation.
#[derive(Debug, Clone, Copy, PartialEq, Eq, Structural)]
pub enum LinkStatus {
    /// Link is active and ready for traffic.
    Active,
    /// Link is temporarily blocked.
    Blocked,
    /// Link is experiencing high latency.
    Slow,
    /// Link is disconnecting.
    Disconnecting,
}

/// Unordered link message types.
#[derive(Debug, Clone, PartialEq, Eq)]
pub enum UnorderedLinkMsg {
    /// Initial handshake from server to client.
    Welcome {
        /// Configuration from server.
        cfg: UnorderedCfg,
        /// Server-assigned link identifier.
        link_id: LinkId,
    },
    /// Client requests to join aggregation group.
    Connect {
        /// Target aggregation group identifier.
        group_id: u64,
        /// User-specified connection data.
        user_data: Vec<u8>,
        /// Client configuration.
        cfg: UnorderedCfg,
    },
    /// Server accepts the connection.
    Accepted {
        /// Assigned link identifier for this connection.
        link_id: LinkId,
        /// Final negotiated configuration.
        cfg: UnorderedCfg,
    },
    /// Server refuses the connection.
    Refused {
        /// Reason for refusal.
        reason: RefusedReason,
    },
    /// Heartbeat request.
    Ping {
        /// Timestamp when ping was sent.
        timestamp: u64,
    },
    /// Heartbeat response.
    Pong {
        /// Original timestamp from ping.
        timestamp: u64,
    },
    /// Data packet.
    Data {
        /// Link that sent this data.
        link_id: LinkId,
        /// Session for transparent proxying; zero means no session.
        session_id: u64,
        /// Original client address for transparent proxying.
        original_client: Option<SocketAddr>,
        /// Data being transmitted.
        payload: Vec<u8>,
    },
    /// Link status change notification.
    LinkStatus {
        /// Link identifier.
        link_id: LinkId,
        /// New status.
        status: LinkStatus,
    },
    /// Graceful disconnection.
    Goodbye {
        /// Reason for disconnection.
        reason: String,
    },
}

/// What a message says.
#[verifier::ext_equal]
pub enum MsgModel {
    /// Initial handshake from server to client.
    Welcome { cfg: CfgModel, link_id: LinkId },
    /// Client requests to join aggregation group.
    Connect { group_id: u64, user_data: Seq<u8>, cfg: CfgModel },
    /// Server accepts the connection.
    Accepted { link_id: LinkId, cfg: CfgModel },
    /// Server refuses the connection.
    Refused { reason: RefusedReason },
    /// Heartbeat request.
    Ping { timestamp: u64 },
    /// Heartbeat response.
    Pong { timestamp: u64 },
    /// Data packet.
    Data {
        link_id: LinkId,
        session_id: u64,
        original_client: Option<SocketAddr>,
        payload: Seq<u8>,
    },
    /// Link status change notification.
    LinkStatus { link_id: LinkId, status: LinkStatus },
    /// Graceful disconnection.
    Goodbye { reason: Seq<char> },
}

impl View for UnorderedLinkMsg {
    type V = MsgModel;

    open spec fn view(&self) -> MsgModel {
        match *self {
            UnorderedLinkMsg::Welcome { cfg, link_id } => MsgModel::Welcome { cfg: cfg@, link_id },
            UnorderedLinkMsg::Connect { group_id, user_data, cfg } => MsgModel::Connect {
                group_id,
                user_data: user_data@,
                cfg: cfg@,
            },
            UnorderedLinkMsg::Accepted { link_id, cfg } => MsgModel::Accepted { link_id, cfg: cfg@ },
            UnorderedLinkMsg::Refused { reason } => MsgModel::Refused { reason },
            UnorderedLinkMsg::Ping { timestamp } => MsgModel::Ping { timestamp },
            UnorderedLinkMsg::Pong { timestamp } => MsgModel::Pong { timestamp },
            UnorderedLinkMsg::Data { link_id, session_id, original_client, payload } =>
                MsgModel::Data { link_id, session_id, original_client, payload: payload@ },
            UnorderedLinkMsg::LinkStatus { link_id, status } => MsgModel::LinkStatus {
                link_id,
                status,
            },
            UnorderedLinkMsg::Goodbye { reason } => MsgModel::Goodbye { reason: reason@ },
        }
    }
}

/// The protocol marker: `UAGG` and a zero byte.
pub open spec fn magic() -> Seq<u8> {
    seq![0x55, 0x41, 0x47, 0x47, 0]
}

/// The byte that stands for a strategy.
pub open spec fn strategy_code(strategy: LoadBalanceStrategy) -> nat {
    match strategy {
        LoadBalanceStrategy::PacketRoundRobin => 1,
        LoadBalanceStrategy::WeightedByBandwidth => 2,
        LoadBalanceStrategy::FastestFirst => 3,
        LoadBalanceStrategy::WeightedByPacketLoss => 4,
        LoadBalanceStrategy::DynamicAdaptive => 5,
    }
}

/// The strategy that a byte stands for.
pub open spec fn strategy_of(code: nat) -> Option<LoadBalanceStrategy> {
    if code == 1 {
        Some(LoadBalanceStrategy::PacketRoundRobin)
    } else if code == 2 {
        Some(LoadBalanceStrategy::WeightedByBandwidth)
    } else if code == 3 {
        Some(LoadBalanceStrategy::FastestFirst)
    } else if code == 4 {
        Some(LoadBalanceStrategy::WeightedByPacketLoss)
    } else if code == 5 {
        Some(LoadBalanceStrategy::DynamicAdaptive)
    } else {
        None
    }
}

/// The byte that stands for a role.
pub open spec fn role_code(role: NodeRole) -> nat {
    match role {
        NodeRole::Client => 1,
        NodeRole::Server => 2,
        NodeRole::Balanced => 3,
    }
}

/// The role that a byte stands for.
pub open spec fn role_of(code: nat) -> Option<NodeRole> {
    if code == 1 {
        Some(NodeRole::Client)
    } else if code == 2 {
        Some(NodeRole::Server)
    } else if code == 3 {
        Some(NodeRole::Balanced)
    } else {
        None
    }
}

/// The byte that stands for a refusal reason.
pub open spec fn reason_code(reason: RefusedReason) -> nat {
    match reason {
        RefusedReason::GroupNotFound => 1,
        RefusedReason::GroupFull => 2,
        RefusedReason::IncompatibleConfig => 3,
        RefusedReason::ServerShutdown => 4,
        RefusedReason::AuthFailed => 5,
        RefusedReason::RateLimited => 6,
    }
}

/// The refusal reason that a byte stands for.
pub open spec fn reason_of(code: nat) -> Option<RefusedReason> {
    if code == 1 {
        Some(RefusedReason::GroupNotFound)
    } else if code == 2 {
        Some(RefusedReason::GroupFull)
    } else if code == 3 {
        Some(RefusedReason::IncompatibleConfig)
    } else if code == 4 {
        Some(RefusedReason::ServerShutdown)
    } else if code == 5 {
        Some(RefusedReason::AuthFailed)
    } else if code == 6 {
        Some(RefusedReason::RateLimited)
    } else {
        None
    }
}

/// The byte that stands for a link status.
pub open spec fn status_code(status: LinkStatus) -> nat {
    match status {
        LinkStatus::Active => 1,
        LinkStatus::Blocked => 2,
        LinkStatus::Slow => 3,
        LinkStatus::Disconnecting => 4,
    }
}

/// The link status that a byte stands for.
pub open spec fn status_of(code: nat) -> Option<LinkStatus> {
    if code == 1 {
        Some(LinkStatus::Active)
    } else if code == 2 {
        Some(LinkStatus::Blocked)
    } else if code == 3 {
        Some(LinkStatus::Slow)
    } else if code == 4 {
        Some(LinkStatus::Disconnecting)
    } else {
        None
    }
}

/// The bytes of a list of spans: their milliseconds, eight bytes each.
pub open spec fn intervals_bytes(spans: Seq<Duration>) -> Seq<u8>
    decreases spans.len(),
{
    if spans.len() == 0 {
        Seq::empty()
    } else {
        wire::be_bytes(spans[0].millis(), 8) + intervals_bytes(spans.drop_first())
    }
}

/// The bytes of a configuration. Each field takes the low-order bytes of its
/// value.
#[verifier::opaque]
pub open spec fn cfg_bytes(cfg: CfgModel) -> Seq<u8> {
    wire::be_bytes(cfg.send_queue, 4) + (wire::be_bytes(cfg.recv_queue, 4) + (wire::be_bytes(
        strategy_code(cfg.load_balance),
        1,
    ) + (wire::be_bytes(cfg.heartbeat_interval.millis(), 8) + (wire::be_bytes(
        cfg.link_timeout.millis(),
        8,
    ) + (wire::be_bytes(cfg.max_packet_size, 4) + (wire::be_bytes(cfg.connect_queue, 4) + (
    wire::be_bytes(cfg.stats_intervals.len(), 1) + (intervals_bytes(cfg.stats_intervals)
        + wire::be_bytes(role_code(cfg.node_role), 1)))))))))
}

/// The bytes of an original client address.
pub open spec fn client_bytes(client: Option<SocketAddr>) -> Seq<u8> {
    match client {
        None => wire::be_bytes(0, 1),
        Some(SocketAddr::V4(a)) => wire::be_bytes(1, 1) + (wire::be_bytes(4, 1) + (wire::be_bytes(
            a.ip.bits as nat,
            4,
        ) + wire::be_bytes(a.port as nat, 2))),
        Some(SocketAddr::V6(a)) => wire::be_bytes(1, 1) + (wire::be_bytes(6, 1) + (wire::be_bytes(
            a.ip.bits as nat,
            16,
        ) + wire::be_bytes(a.port as nat, 2))),
    }
}

/// Why a message cannot be encoded.
pub open spec fn msg_error(msg: MsgModel) -> Option<MsgError> {
    match msg {
        MsgModel::Connect { user_data, .. } => if user_data.len() > 0xFFFF {
            Some(MsgError::UserDataTooLong)
        } else {
            None
        },
        MsgModel::Data { payload, .. } => if payload.len() > 0xFFFF_FFFF {
            Some(MsgError::PayloadTooLong)
        } else {
            None
        },
        MsgModel::Goodbye { reason } => if utf8::encode_utf8(reason).len() > 0xFFFF {
            Some(MsgError::ReasonTooLong)
        } else {
            None
        },
        _ => None,
    }
}

/// A field of `n` bytes that holds the length of `bytes`, then `bytes`; nothing
/// if the length does not fit.
pub open spec fn counted(n: nat, bytes: Seq<u8>) -> Seq<u8> {
    if bytes.len() < wire::pow256(n) {
        wire::be_bytes(bytes.len(), n) + bytes
    } else {
        Seq::empty()
    }
}

/// The bytes of a message. For a message that cannot be encoded: what comes
/// before the field that does not fit.
pub open spec fn msg_bytes(msg: MsgModel) -> Seq<u8> {
    match msg {
        MsgModel::Welcome { cfg, link_id } => wire::be_bytes(1, 1) + (magic() + (wire::be_bytes(
            2,
            1,
        ) + (wire::be_bytes(link_id.0 as nat, 16) + cfg_bytes(cfg)))),
        MsgModel::Connect { group_id, user_data, cfg } => wire::be_bytes(2, 1) + (magic() + (
        wire::be_bytes(2, 1) + (wire::be_bytes(group_id as nat, 8) + (if msg_error(msg) is None {
            counted(2, user_data) + cfg_bytes(cfg)
        } else {
            Seq::empty()
        })))),
        MsgModel::Accepted { link_id, cfg } => wire::be_bytes(3, 1) + (wire::be_bytes(
            link_id.0 as nat,
            16,
        ) + cfg_bytes(cfg)),
        MsgModel::Refused { reason } => wire::be_bytes(4, 1) + wire::be_bytes(
            reason_code(reason),
            1,
        ),
        MsgModel::Ping { timestamp } => wire::be_bytes(5, 1) + wire::be_bytes(timestamp as nat, 8),
        MsgModel::Pong { timestamp } => wire::be_bytes(6, 1) + wire::be_bytes(timestamp as nat, 8),
        MsgModel::Data { link_id, session_id, original_client, payload } => wire::be_bytes(7, 1) + (
        wire::be_bytes(link_id.0 as nat, 16) + (wire::be_bytes(session_id as nat, 8) + (
        client_bytes(original_client) + counted(4, payload)))),
        MsgModel::LinkStatus { link_id, status } => wire::be_bytes(8, 1) + (wire::be_bytes(
            link_id.0 as nat,
            16,
        ) + wire::be_bytes(status_code(status), 1)),
        MsgModel::Goodbye { reason } => wire::be_bytes(9, 1) + counted(
            2,
            utf8::encode_utf8(reason),
        ),
    }
}

/// What reading `count` spans from `s` gives: the spans and the rest.
pub open spec fn read_intervals(s: Seq<u8>, count: nat) -> Result<(Seq<Duration>, Seq<u8>), MsgError>
    decreases count,
{
    if count == 0 {
        Ok((Seq::empty(), s))
    } else {
        match wire::take_int(s, 8) {
            Err(e) => Err(e),
            Ok((ms, s1)) => match read_intervals(s1, (count - 1) as nat) {
                Err(e) => Err(e),
                Ok((spans, rest)) => Ok((seq![unordered_cfg::millis(ms)] + spans, rest)),
            },
        }
    }
}

/// What reading a configuration from `s` gives: the configuration and the rest,
/// or the first thing that is wrong.
#[verifier::opaque]
pub open spec fn read_cfg(s: Seq<u8>) -> Result<(CfgModel, Seq<u8>), MsgError> {
    match wire::take_int(s, 4) {
        Err(e) => Err(e),
        Ok((send_queue, s1)) => if send_queue == 0 {
            Err(MsgError::InvalidSendQueue)
        } else {
            match wire::take_int(s1, 4) {
                Err(e) => Err(e),
                Ok((recv_queue, s2)) => if recv_queue == 0 {
                    Err(MsgError::InvalidRecvQueue)
                } else {
                    match wire::take_int(s2, 1) {
                        Err(e) => Err(e),
                        Ok((code, s3)) => match strategy_of(code) {
                            None => Err(MsgError::UnknownStrategy),
                            Some(load_balance) => read_cfg_timing(
                                s3,
                                send_queue,
                                recv_queue,
                                load_balance,
                            ),
                        },
                    }
                },
            }
        },
    }
}

/// The part of a configuration that follows the strategy.
pub open spec fn read_cfg_timing(
    s: Seq<u8>,
    send_queue: nat,
    recv_queue: nat,
    load_balance: LoadBalanceStrategy,
) -> Result<(CfgModel, Seq<u8>), MsgError> {
    match wire::take_int(s, 8) {
        Err(e) => Err(e),
        Ok((heartbeat, s1)) => match wire::take_int(s1, 8) {
            Err(e) => Err(e),
            Ok((timeout, s2)) => match wire::take_int(s2, 4) {
                Err(e) => Err(e),
                Ok((max_packet_size, s3)) => match wire::take_int(s3, 4) {
                    Err(e) => Err(e),
                    Ok((connect_queue, s4)) => if connect_queue == 0 {
                        Err(MsgError::InvalidConnectQueue)
                    } else {
                        match wire::take_int(s4, 1) {
                            Err(e) => Err(e),
                            Ok((count, s5)) => match read_intervals(s5, count) {
                                Err(e) => Err(e),
                                Ok((stats_intervals, s6)) => match wire::take_int(s6, 1) {
                                    Err(e) => Err(e),
                                    Ok((code, s7)) => match role_of(code) {
                                        None => Err(MsgError::InvalidNodeRole),
                                        Some(node_role) => Ok(
                                            (
                                                CfgModel {
                                                    send_queue,
                                                    recv_queue,
                                                    load_balance,
                                                    heartbeat_interval: unordered_cfg::millis(
                                                        heartbeat,
                                                    ),
                                                    link_timeout: unordered_cfg::millis(timeout),
                                                    max_packet_size,
                                                    connect_queue,
                                                    stats_intervals,
                                                    node_role,
                                                },
                                                s7,
                                            ),
                                        ),
                                    },
                                },
                            },
                        }
                    },
                },
            },
        },
    }
}

/// What reading the marker and the version from `s` gives: the rest.
#[verifier::opaque]
pub open spec fn read_preamble(s: Seq<u8>) -> Result<Seq<u8>, MsgError> {
    match wire::take_bytes(s, 5) {
        Err(e) => Err(e),
        Ok((marker, s1)) => if marker != magic() {
            Err(MsgError::InvalidMagic)
        } else {
            match wire::take_int(s1, 1) {
                Err(e) => Err(e),
                Ok((version, s2)) => if version != 2 {
                    Err(MsgError::UnsupportedVersion)
                } else {
                    Ok(s2)
                },
            }
        },
    }
}

/// What reading a byte count of `n` bytes and then that many bytes gives.
pub open spec fn read_counted(s: Seq<u8>, n: nat) -> Result<(Seq<u8>, Seq<u8>), MsgError> {
    match wire::take_int(s, n) {
        Err(e) => Err(e),
        Ok((len, s1)) => wire::take_bytes(s1, len),
    }
}

/// What reading an optional original client address gives.
#[verifier::opaque]
pub open spec fn read_client(s: Seq<u8>) -> Result<(Option<SocketAddr>, Seq<u8>), MsgError> {
    match wire::take_int(s, 1) {
        Err(e) => Err(e),
        Ok((present, s1)) => if present == 0 {
            Ok((None, s1))
        } else {
            match wire::take_int(s1, 1) {
                Err(e) => Err(e),
                Ok((kind, s2)) => if kind == 4 {
                    match wire::take_int(s2, 4) {
                        Err(e) => Err(e),
                        Ok((bits, s3)) => read_client_port(
                            s3,
                            IpAddr::V4(Ipv4Addr { bits: bits as u32 }),
                        ),
                    }
                } else if kind == 6 {
                    match wire::take_int(s2, 16) {
                        Err(e) => Err(e),
                        Ok((bits, s3)) => read_client_port(
                            s3,
                            IpAddr::V6(Ipv6Addr { bits: bits as u128 }),
                        ),
                    }
                } else {
                    Err(MsgError::UnknownAddressType)
                },
            }
        },
    }
}

/// What reading the port that belongs to `ip` gives.
pub open spec fn read_client_port(s: Seq<u8>, ip: IpAddr) -> Result<
    (Option<SocketAddr>, Seq<u8>),
    MsgError,
> {
    match wire::take_int(s, 2) {
        Err(e) => Err(e),
        Ok((port, s1)) => Ok((Some(SocketAddr::of(ip, port as u16)), s1)),
    }
}

/// What reading a message from `s` gives: the message and the rest, or the
/// first thing that is wrong.
pub open spec fn read_msg(s: Seq<u8>) -> Result<(MsgModel, Seq<u8>), MsgError> {
    match wire::take_int(s, 1) {
        Err(e) => Err(e),
        Ok((kind, s1)) => read_msg_body(kind, s1),
    }
}

/// What reading the part of a message behind its type byte gives.
pub open spec fn read_msg_body(kind: nat, s: Seq<u8>) -> Result<(MsgModel, Seq<u8>), MsgError> {
    if kind == 1 {
        match read_preamble(s) {
            Err(e) => Err(e),
            Ok(s1) => match wire::take_int(s1, 16) {
                Err(e) => Err(e),
                Ok((id, s2)) => match read_cfg(s2) {
                    Err(e) => Err(e),
                    Ok((cfg, rest)) => Ok(
                        (MsgModel::Welcome { cfg, link_id: LinkId(id as u128) }, rest),
                    ),
                },
            },
        }
    } else if kind == 2 {
        match read_preamble(s) {
            Err(e) => Err(e),
            Ok(s1) => match wire::take_int(s1, 8) {
                Err(e) => Err(e),
                Ok((group_id, s2)) => match read_counted(s2, 2) {
                    Err(e) => Err(e),
                    Ok((user_data, s3)) => match read_cfg(s3) {
                        Err(e) => Err(e),
                        Ok((cfg, rest)) => Ok(
                            (
                                MsgModel::Connect { group_id: group_id as u64, user_data, cfg },
                                rest,
                            ),
                        ),
                    },
                },
            },
        }
    } else if kind == 3 {
        match wire::take_int(s, 16) {
            Err(e) => Err(e),
            Ok((id, s1)) => match read_cfg(s1) {
                Err(e) => Err(e),
                Ok((cfg, rest)) => Ok(
                    (MsgModel::Accepted { link_id: LinkId(id as u128), cfg }, rest),
                ),
            },
        }
    } else if kind == 4 {
        match wire::take_int(s, 1) {
            Err(e) => Err(e),
            Ok((code, rest)) => match reason_of(code) {
                None => Err(MsgError::UnknownRefusedReason),
                Some(reason) => Ok((MsgModel::Refused { reason }, rest)),
            },
        }
    } else if kind == 5 {
        match wire::take_int(s, 8) {
            Err(e) => Err(e),
            Ok((timestamp, rest)) => Ok((MsgModel::Ping { timestamp: timestamp as u64 }, rest)),
        }
    } else if kind == 6 {
        match wire::take_int(s, 8) {
            Err(e) => Err(e),
            Ok((timestamp, rest)) => Ok((MsgModel::Pong { timestamp: timestamp as u64 }, rest)),
        }
    } else if kind == 7 {
        match wire::take_int(s, 16) {
            Err(e) => Err(e),
            Ok((id, s1)) => match wire::take_int(s1, 8) {
                Err(e) => Err(e),
                Ok((session_id, s2)) => match read_client(s2) {
                    Err(e) => Err(e),
                    Ok((original_client, s3)) => match read_counted(s3, 4) {
                        Err(e) => Err(e),
                        Ok((payload, rest)) => Ok(
                            (
                                MsgModel::Data {
                                    link_id: LinkId(id as u128),
                                    session_id: session_id as u64,
                                    original_client,
                                    payload,
                                },
                                rest,
                            ),
                        ),
                    },
                },
            },
        }
    } else if kind == 8 {
        match wire::take_int(s, 16) {
            Err(e) => Err(e),
            Ok((id, s1)) => match wire::take_int(s1, 1) {
                Err(e) => Err(e),
                Ok((code, rest)) => match status_of(code) {
                    None => Err(MsgError::UnknownLinkStatus),
                    Some(status) => Ok(
                        (MsgModel::LinkStatus { link_id: LinkId(id as u128), status }, rest),
                    ),
                },
            },
        }
    } else if kind == 9 {
        match read_counted(s, 2) {
            Err(e) => Err(e),
            Ok((bytes, rest)) => if utf8::valid_utf8(bytes) {
                Ok((MsgModel::Goodbye { reason: utf8::decode_utf8(bytes) }, rest))
            } else {
                Err(MsgError::InvalidUtf8)
            },
        }
    } else {
        Err(MsgError::UnknownMessageType)
    }
}

/// `r` is the message that `expected` names, with `after` left to read, or the
/// error that `expected` names.
pub open spec fn reads_as(
    expected: Result<(MsgModel, Seq<u8>), MsgError>,
    r: Result<UnorderedLinkMsg, MsgError>,
    after: Seq<u8>,
) -> bool {
    match (expected, r) {
        (Ok((model, rest)), Ok(msg)) => msg@ == model && after == rest,
        (Err(e), Err(f)) => e == f,
        _ => false,
    }
}

/// The low-order four bytes of a number.
fn low_u32(n: usize) -> (v: u32)
    ensures
        wire::be_bytes(v as nat, 4) == wire::be_bytes(n as nat, 4),
{
    let w: u64 = n as u64;
    let v: u32 = w as u32;
    proof {
        assert(v == w % 0x1_0000_0000) by (bit_vector)
            requires
                v == w as u32,
        ;
        wire::be_bytes_low(n as nat, 4);
        wire::pow256_values();
    }
    v
}

/// The low-order eight bytes of the milliseconds of a span.
fn low_millis(span: &Duration) -> (v: u64)
    ensures
        wire::be_bytes(v as nat, 8) == wire::be_bytes(span.millis(), 8),
{
    let n: u128 = span.as_millis();
    let v: u64 = n as u64;
    proof {
        assert(v == n % 0x1_0000_0000_0000_0000) by (bit_vector)
            requires
                v == n as u64,
        ;
        wire::be_bytes_low(n as nat, 8);
        wire::pow256_values();
    }
    v
}

/// The low-order byte of a number.
fn low_u8(n: usize) -> (v: u8)
    ensures
        wire::be_bytes(v as nat, 1) == wire::be_bytes(n as nat, 1),
{
    let v: u8 = n as u8;
    proof {
        assert(v == n % 256) by (bit_vector)
            requires
                v == n as u8,
        ;
        wire::be_bytes_low(n as nat, 1);
        wire::pow256_values();
    }
    v
}

proof fn parts_in_order(
    w: Seq<u8>,
    a: Seq<u8>,
    b: Seq<u8>,
    c: Seq<u8>,
    d: Seq<u8>,
    e: Seq<u8>,
    f: Seq<u8>,
    g: Seq<u8>,
    h: Seq<u8>,
    i: Seq<u8>,
    j: Seq<u8>,
)
    ensures
        w + a + b + c + d + e + f + g + h + i + j == w + (a + (b + (c + (d + (e + (f + (g + (h + (i
            + j))))))))),
{
    assert(w + a + b + c + d + e + f + g + h + i + j =~= w + (a + (b + (c + (d + (e + (f + (g + (h
        + (i + j))))))))));
}

impl UnorderedCfg {
    /// Appends the configuration.
    pub fn write(&self, writer: &mut Vec<u8>) -> (r: Result<(), MsgError>)
        ensures
            r is Ok,
            final(writer)@ == old(writer)@ + cfg_bytes(self@),
    {
        wire::write_be_u32(writer, low_u32(self.send_queue.get()));
        wire::write_be_u32(writer, low_u32(self.recv_queue.get()));
        let strategy: u8 = match self.load_balance {
            LoadBalanceStrategy::PacketRoundRobin => 1,
            LoadBalanceStrategy::WeightedByBandwidth => 2,
            LoadBalanceStrategy::FastestFirst => 3,
            LoadBalanceStrategy::WeightedByPacketLoss => 4,
            LoadBalanceStrategy::DynamicAdaptive => 5,
        };
        wire::write_u8(writer, strategy);
        wire::write_be_u64(writer, low_millis(&self.heartbeat_interval));
        wire::write_be_u64(writer, low_millis(&self.link_timeout));
        wire::write_be_u32(writer, low_u32(self.max_packet_size));
        wire::write_be_u32(writer, low_u32(self.connect_queue.get()));
        wire::write_u8(writer, low_u8(self.stats_intervals.len()));
        let ghost before = writer@;
        let spans = &self.stats_intervals;
        let mut i: usize = 0;
        assert(spans@.skip(0) =~= spans@);
        while i < spans.len()
            invariant
                i <= spans.len(),
                writer@ + intervals_bytes(spans@.skip(i as int)) == before + intervals_bytes(spans@),
            decreases spans.len() - i,
        {
            let ghost rest = spans@.skip(i as int);
            let ghost at = writer@;
            wire::write_be_u64(writer, low_millis(&spans[i]));
            i = i + 1;
            proof {
                assert(rest.drop_first() =~= spans@.skip(i as int));
                assert(writer@ + intervals_bytes(rest.drop_first()) =~= at + intervals_bytes(rest));
            }
        }
        assert(spans@.skip(i as int) =~= Seq::empty());
        assert(writer@ =~= before + intervals_bytes(spans@));
        let role: u8 = match self.node_role {
            NodeRole::Client => 1,
            NodeRole::Server => 2,
            NodeRole::Balanced => 3,
        };
        wire::write_u8(writer, role);
        proof {
            let cfg = self@;
            reveal(cfg_bytes);
            parts_in_order(
                old(writer)@,
                wire::be_bytes(cfg.send_queue, 4),
                wire::be_bytes(cfg.recv_queue, 4),
                wire::be_bytes(strategy_code(cfg.load_balance), 1),
                wire::be_bytes(cfg.heartbeat_interval.millis(), 8),
                wire::be_bytes(cfg.link_timeout.millis(), 8),
                wire::be_bytes(cfg.max_packet_size, 4),
                wire::be_bytes(cfg.connect_queue, 4),
                wire::be_bytes(cfg.stats_intervals.len(), 1),
                intervals_bytes(cfg.stats_intervals),
                wire::be_bytes(role_code(cfg.node_role), 1),
            );
        }
        Ok(())
    }

    /// Reads a configuration.
    pub fn read(reader: &mut Cursor) -> (r: Result<UnorderedCfg, MsgError>)
        ensures
            final(reader).whole() == old(reader).whole(),
            match (read_cfg(old(reader).rest()), r) {
                (Ok((model, rest)), Ok(cfg)) => cfg@ == model && final(reader).rest() == rest,
                (Err(e), Err(f)) => e == f,
                _ => false,
            },
    {
        reveal(read_cfg);
        let send_queue = match reader.read_u32() {
            Ok(n) => match NonZeroUsize::new(n as usize) {
                Some(q) => q,
                None => return Err(MsgError::InvalidSendQueue),
            },
            Err(e) => return Err(e),
        };
        let recv_queue = match reader.read_u32() {
            Ok(n) => match NonZeroUsize::new(n as usize) {
                Some(q) => q,
                None => return Err(MsgError::InvalidRecvQueue),
            },
            Err(e) => return Err(e),
        };
        let load_balance = match reader.read_u8() {
            Ok(1) => LoadBalanceStrategy::PacketRoundRobin,
            Ok(2) => LoadBalanceStrategy::WeightedByBandwidth,
            Ok(3) => LoadBalanceStrategy::FastestFirst,
            Ok(4) => LoadBalanceStrategy::WeightedByPacketLoss,
            Ok(5) => LoadBalanceStrategy::DynamicAdaptive,
            Ok(_) => return Err(MsgError::UnknownStrategy),
            Err(e) => return Err(e),
        };
        let heartbeat_interval = match reader.read_u64() {
            Ok(ms) => Duration::from_millis(ms),
            Err(e) => return Err(e),
        };
        let link_timeout = match reader.read_u64() {
            Ok(ms) => Duration::from_millis(ms),
            Err(e) => return Err(e),
        };
        let max_packet_size: usize = match reader.read_u32() {
            Ok(n) => n as usize,
            Err(e) => return Err(e),
        };
        let connect_queue = match reader.read_u32() {
            Ok(n) => match NonZeroUsize::new(n as usize) {
                Some(q) => q,
                None => return Err(MsgError::InvalidConnectQueue),
            },
            Err(e) => return Err(e),
        };
        let count: u8 = match reader.read_u8() {
            Ok(n) => n,
            Err(e) => return Err(e),
        };
        let stats_intervals = match read_spans(reader, count) {
            Ok(spans) => spans,
            Err(e) => return Err(e),
        };
        let node_role = match reader.read_u8() {
            Ok(1) => NodeRole::Client,
            Ok(2) => NodeRole::Server,
            Ok(3) => NodeRole::Balanced,
            Ok(_) => return Err(MsgError::InvalidNodeRole),
            Err(e) => return Err(e),
        };
        Ok(
            UnorderedCfg {
                send_queue,
                recv_queue,
                load_balance,
                heartbeat_interval,
                link_timeout,
                max_packet_size,
                connect_queue,
                stats_intervals,
                node_role,
            },
        )
    }
}

/// Reads `count` spans.
fn read_spans(reader: &mut Cursor, count: u8) -> (r: Result<Vec<Duration>, MsgError>)
    ensures
        final(reader).whole() == old(reader).whole(),
        match (read_intervals(old(reader).rest(), count as nat), r) {
            (Ok((model, rest)), Ok(spans)) => spans@ == model && final(reader).rest() == rest,
            (Err(e), Err(f)) => e == f,
            _ => false,
        },
{
    let ghost start = reader.rest();
    let mut spans: Vec<Duration> = Vec::new();
    let mut i: u8 = 0;
    proof {
        match read_intervals(start, count as nat) {
            Ok((ds, rest)) => {
                assert(spans@ + ds =~= ds);
            },
            Err(e) => {},
        }
    }
    while i < count
        invariant
            i <= count,
            reader.whole() == old(reader).whole(),
            start == old(reader).rest(),
            read_intervals(start, count as nat) == (match read_intervals(
                reader.rest(),
                (count - i) as nat,
            ) {
                Ok((ds, rest)) => Ok::<(Seq<Duration>, Seq<u8>), MsgError>((spans@ + ds, rest)),
                Err(e) => Err(e),
            }),
        decreases count - i,
    {
        let ghost at = reader.rest();
        let ghost so_far = spans@;
        match reader.read_u64() {
            Ok(ms) => {
                spans.push(Duration::from_millis(ms));
                proof {
                    match read_intervals(reader.rest(), (count - i - 1) as nat) {
                        Ok((ds, rest)) => {
                            assert(so_far + (seq![unordered_cfg::millis(ms as nat)] + ds) =~= spans@
                                + ds);
                        },
                        Err(e) => {},
                    }
                }
            },
            Err(e) => return Err(e),
        }
        i = i + 1;
    }
    assert(spans@ + Seq::empty() =~= spans@);
    Ok(spans)
}

/// Turns bytes into text.
///
/// Calls `String::from_utf8`. Assumed: it fails exactly on bytes that are not
/// UTF-8, and else gives the text that the bytes encode.
#[verifier::external_body]
fn text_from_utf8(bytes: Vec<u8>) -> (r: Option<String>)
    ensures
        r is Some <==> utf8::valid_utf8(bytes@),
        r matches Some(text) ==> text@ == utf8::decode_utf8(bytes@),
{
    String::from_utf8(bytes).ok()
}

impl RefusedReason {
    /// Appends the code of the reason.
    pub fn write(&self, writer: &mut Vec<u8>) -> (r: Result<(), MsgError>)
        ensures
            r is Ok,
            final(writer)@ == old(writer)@ + wire::be_bytes(reason_code(*self), 1),
    {
        let code: u8 = match self {
            RefusedReason::GroupNotFound => 1,
            RefusedReason::GroupFull => 2,
            RefusedReason::IncompatibleConfig => 3,
            RefusedReason::ServerShutdown => 4,
            RefusedReason::AuthFailed => 5,
            RefusedReason::RateLimited => 6,
        };
        wire::write_u8(writer, code);
        Ok(())
    }

    /// Reads the code of a reason.
    pub fn read(reader: &mut Cursor) -> (r: Result<RefusedReason, MsgError>)
        ensures
            final(reader).whole() == old(reader).whole(),
            match wire::take_int(old(reader).rest(), 1) {
                Err(e) => r == Err::<RefusedReason, MsgError>(e),
                Ok((code, rest)) => match reason_of(code) {
                    Some(reason) => r == Ok::<RefusedReason, MsgError>(reason)
                        && final(reader).rest() == rest,
                    None => r == Err::<RefusedReason, MsgError>(MsgError::UnknownRefusedReason)
                        && final(reader).rest() == rest,
                },
            },
    {
        match reader.read_u8() {
            Ok(1) => Ok(RefusedReason::GroupNotFound),
            Ok(2) => Ok(RefusedReason::GroupFull),
            Ok(3) => Ok(RefusedReason::IncompatibleConfig),
            Ok(4) => Ok(RefusedReason::ServerShutdown),
            Ok(5) => Ok(RefusedReason::AuthFailed),
            Ok(6) => Ok(RefusedReason::RateLimited),
            Ok(_) => Err(MsgError::UnknownRefusedReason),
            Err(e) => Err(e),
        }
    }
}

impl LinkStatus {
    /// Appends the code of the status.
    pub fn write(&self, writer: &mut Vec<u8>) -> (r: Result<(), MsgError>)
        ensures
            r is Ok,
            final(writer)@ == old(writer)@ + wire::be_bytes(status_code(*self), 1),
    {
        let code: u8 = match self {
            LinkStatus::Active => 1,
            LinkStatus::Blocked => 2,
            LinkStatus::Slow => 3,
            LinkStatus::Disconnecting => 4,
        };
        wire::write_u8(writer, code);
        Ok(())
    }

    /// Reads the code of a status.
    pub fn read(reader: &mut Cursor) -> (r: Result<LinkStatus, MsgError>)
        ensures
            final(reader).whole() == old(reader).whole(),
            match wire::take_int(old(reader).rest(), 1) {
                Err(e) => r == Err::<LinkStatus, MsgError>(e),
                Ok((code, rest)) => match status_of(code) {
                    Some(status) => r == Ok::<LinkStatus, MsgError>(status)
                        && final(reader).rest() == rest,
                    None => r == Err::<LinkStatus, MsgError>(MsgError::UnknownLinkStatus)
                        && final(reader).rest() == rest,
                },
            },
    {
        match reader.read_u8() {
            Ok(1) => Ok(LinkStatus::Active),
            Ok(2) => Ok(LinkStatus::Blocked),
            Ok(3) => Ok(LinkStatus::Slow),
            Ok(4) => Ok(LinkStatus::Disconnecting),
            Ok(_) => Err(MsgError::UnknownLinkStatus),
            Err(e) => Err(e),
        }
    }
}

/// Appends the protocol marker and version.
fn write_preamble(writer: &mut Vec<u8>)
    ensures
        final(writer)@ == old(writer)@ + (magic() + wire::be_bytes(2, 1)),
{
    writer.push(0x55);
    writer.push(0x41);
    writer.push(0x47);
    writer.push(0x47);
    writer.push(0);
    wire::write_u8(writer, UnorderedLinkMsg::PROTOCOL_VERSION);
    assert(writer@ =~= old(writer)@ + (magic() + wire::be_bytes(2, 1)));
}

/// Reads the protocol marker and version.
fn check_preamble(reader: &mut Cursor) -> (r: Result<(), MsgError>)
    ensures
        final(reader).whole() == old(reader).whole(),
        match (read_preamble(old(reader).rest()), r) {
            (Ok(rest), Ok(())) => final(reader).rest() == rest,
            (Err(e), Err(f)) => e == f,
            _ => false,
        },
{
    reveal(read_preamble);
    let marker = match reader.read_exact(5) {
        Ok(bytes) => bytes,
        Err(e) => return Err(e),
    };
    if !(marker[0] == 0x55 && marker[1] == 0x41 && marker[2] == 0x47 && marker[3] == 0x47
        && marker[4] == 0) {
        return Err(MsgError::InvalidMagic);
    }
    assert(marker@ =~= magic());
    match reader.read_u8() {
        Ok(version) => if version == UnorderedLinkMsg::PROTOCOL_VERSION {
            Ok(())
        } else {
            Err(MsgError::UnsupportedVersion)
        },
        Err(e) => Err(e),
    }
}

/// Appends the original client address.
fn write_client(writer: &mut Vec<u8>, client: &Option<SocketAddr>)
    ensures
        final(writer)@ == old(writer)@ + client_bytes(*client),
{
    match client {
        Some(SocketAddr::V4(a)) => {
            wire::write_u8(writer, 1);
            wire::write_u8(writer, 4);
            wire::write_be_u32(writer, a.ip.bits);
            wire::write_be_u16(writer, a.port);
        },
        Some(SocketAddr::V6(a)) => {
            wire::write_u8(writer, 1);
            wire::write_u8(writer, 6);
            wire::write_be_u128(writer, a.ip.bits);
            wire::write_be_u16(writer, a.port);
        },
        None => {
            wire::write_u8(writer, 0);
        },
    }
    assert(writer@ =~= old(writer)@ + client_bytes(*client));
}

/// Reads the original client address.
fn read_client_addr(reader: &mut Cursor) -> (r: Result<Option<SocketAddr>, MsgError>)
    ensures
        final(reader).whole() == old(reader).whole(),
        match (read_client(old(reader).rest()), r) {
            (Ok((model, rest)), Ok(client)) => client == model && final(reader).rest() == rest,
            (Err(e), Err(f)) => e == f,
            _ => false,
        },
{
    reveal(read_client);
    match reader.read_u8() {
        Ok(0) => return Ok(None),
        Ok(_) => {},
        Err(e) => return Err(e),
    }
    let ip = match reader.read_u8() {
        Ok(4) => match reader.read_u32() {
            Ok(bits) => IpAddr::V4(Ipv4Addr { bits }),
            Err(e) => return Err(e),
        },
        Ok(6) => match reader.read_u128() {
            Ok(bits) => IpAddr::V6(Ipv6Addr { bits }),
            Err(e) => return Err(e),
        },
        Ok(_) => return Err(MsgError::UnknownAddressType),
        Err(e) => return Err(e),
    };
    match reader.read_u16() {
        Ok(port) => Ok(Some(SocketAddr::new(ip, port))),
        Err(e) => Err(e),
    }
}

impl UnorderedLinkMsg {
    /// Protocol version for unordered aggregation.
    pub const PROTOCOL_VERSION: u8 = 2;

    fn write_connect(
        writer: &mut Vec<u8>,
        group_id: u64,
        user_data: &Vec<u8>,
        cfg: &UnorderedCfg,
    ) -> (r: Result<(), MsgError>)
        ensures
            ({
                let msg = MsgModel::Connect { group_id, user_data: user_data@, cfg: cfg@ };
                &&& final(writer)@ == old(writer)@ + msg_bytes(msg)
                &&& r == (match msg_error(msg) {
                    Some(e) => Err::<(), MsgError>(e),
                    None => Ok(()),
                })
            }),
    {
        let ghost msg = MsgModel::Connect { group_id, user_data: user_data@, cfg: cfg@ };
        proof {
            wire::pow256_values();
        }
        wire::write_u8(writer, 2);
        write_preamble(writer);
        wire::write_be_u64(writer, group_id);
        if user_data.len() > 0xFFFF {
            assert(writer@ =~= old(writer)@ + msg_bytes(msg));
            return Err(MsgError::UserDataTooLong);
        }
        wire::write_be_u16(writer, user_data.len() as u16);
        writer.extend_from_slice(user_data.as_slice());
        let _ = cfg.write(writer);
        assert(writer@ =~= old(writer)@ + msg_bytes(msg));
        Ok(())
    }

    fn write_data(
        writer: &mut Vec<u8>,
        link_id: LinkId,
        session_id: u64,
        original_client: &Option<SocketAddr>,
        payload: &Vec<u8>,
    ) -> (r: Result<(), MsgError>)
        ensures
            ({
                let msg = MsgModel::Data {
                    link_id,
                    session_id,
                    original_client: *original_client,
                    payload: payload@,
                };
                &&& final(writer)@ == old(writer)@ + msg_bytes(msg)
                &&& r == (match msg_error(msg) {
                    Some(e) => Err::<(), MsgError>(e),
                    None => Ok(()),
                })
            }),
    {
        let ghost msg = MsgModel::Data {
            link_id,
            session_id,
            original_client: *original_client,
            payload: payload@,
        };
        proof {
            wire::pow256_values();
        }
        wire::write_u8(writer, 7);
        wire::write_be_u128(writer, link_id.0);
        wire::write_be_u64(writer, session_id);
        write_client(writer, original_client);
        if payload.len() > 0xFFFF_FFFF {
            assert(writer@ =~= old(writer)@ + msg_bytes(msg));
            return Err(MsgError::PayloadTooLong);
        }
        wire::write_be_u32(writer, payload.len() as u32);
        writer.extend_from_slice(payload.as_slice());
        assert(writer@ =~= old(writer)@ + msg_bytes(msg));
        Ok(())
    }

    fn write_goodbye(writer: &mut Vec<u8>, reason: &String) -> (r: Result<(), MsgError>)
        ensures
            ({
                let msg = MsgModel::Goodbye { reason: reason@ };
                &&& final(writer)@ == old(writer)@ + msg_bytes(msg)
                &&& r == (match msg_error(msg) {
                    Some(e) => Err::<(), MsgError>(e),
                    None => Ok(()),
                })
            }),
    {
        let ghost msg = MsgModel::Goodbye { reason: reason@ };
        proof {
            wire::pow256_values();
        }
        wire::write_u8(writer, 9);
        let text = reason.as_str().as_bytes();
        if text.len() > 0xFFFF {
            assert(writer@ =~= old(writer)@ + msg_bytes(msg));
            return Err(MsgError::ReasonTooLong);
        }
        wire::write_be_u16(writer, text.len() as u16);
        writer.extend_from_slice(text);
        assert(writer@ =~= old(writer)@ + msg_bytes(msg));
        Ok(())
    }

    /// Appends the message. If a field is too long for its length field, what
    /// comes before that field has been appended and the error is returned.
    pub fn write(&self, writer: &mut Vec<u8>) -> (r: Result<(), MsgError>)
        ensures
            final(writer)@ == old(writer)@ + msg_bytes(self@),
            r == (match msg_error(self@) {
                Some(e) => Err::<(), MsgError>(e),
                None => Ok(()),
            }),
    {
        match self {
            UnorderedLinkMsg::Welcome { cfg, link_id } => {
                wire::write_u8(writer, 1);
                write_preamble(writer);
                wire::write_be_u128(writer, link_id.0);
                let _ = cfg.write(writer);
                assert(writer@ =~= old(writer)@ + msg_bytes(self@));
            },
            UnorderedLinkMsg::Connect { group_id, user_data, cfg } => {
                return Self::write_connect(writer, *group_id, user_data, cfg);
            },
            UnorderedLinkMsg::Accepted { link_id, cfg } => {
                wire::write_u8(writer, 3);
                wire::write_be_u128(writer, link_id.0);
                let _ = cfg.write(writer);
                assert(writer@ =~= old(writer)@ + msg_bytes(self@));
            },
            UnorderedLinkMsg::Refused { reason } => {
                wire::write_u8(writer, 4);
                let _ = reason.write(writer);
                assert(writer@ =~= old(writer)@ + msg_bytes(self@));
            },
            UnorderedLinkMsg::Ping { timestamp } => {
                wire::write_u8(writer, 5);
                wire::write_be_u64(writer, *timestamp);
                assert(writer@ =~= old(writer)@ + msg_bytes(self@));
            },
            UnorderedLinkMsg::Pong { timestamp } => {
                wire::write_u8(writer, 6);
                wire::write_be_u64(writer, *timestamp);
                assert(writer@ =~= old(writer)@ + msg_bytes(self@));
            },
            UnorderedLinkMsg::Data { link_id, session_id, original_client, payload } => {
                return Self::write_data(writer, *link_id, *session_id, original_client, payload);
            },
            UnorderedLinkMsg::LinkStatus { link_id, status } => {
                wire::write_u8(writer, 8);
                wire::write_be_u128(writer, link_id.0);
                let _ = status.write(writer);
                assert(writer@ =~= old(writer)@ + msg_bytes(self@));
            },
            UnorderedLinkMsg::Goodbye { reason } => {
                return Self::write_goodbye(writer, reason);
            },
        }
        Ok(())
    }

    /// Reads the part of a welcome or an accept message that holds the link and
    /// the configuration.
    fn read_link_and_cfg(reader: &mut Cursor) -> (r: Result<(LinkId, UnorderedCfg), MsgError>)
        ensures
            final(reader).whole() == old(reader).whole(),
            match wire::take_int(old(reader).rest(), 16) {
                Err(e) => r == Err::<(LinkId, UnorderedCfg), MsgError>(e),
                Ok((id, s1)) => match (read_cfg(s1), r) {
                    (Ok((model, rest)), Ok((link_id, cfg))) => link_id == LinkId(id as u128) && cfg@
                        == model && final(reader).rest() == rest,
                    (Err(e), Err(f)) => e == f,
                    _ => false,
                },
            },
    {
        let link_id = match reader.read_u128() {
            Ok(id) => LinkId(id),
            Err(e) => return Err(e),
        };
        match UnorderedCfg::read(reader) {
            Ok(cfg) => Ok((link_id, cfg)),
            Err(e) => Err(e),
        }
    }

    fn read_welcome(reader: &mut Cursor) -> (r: Result<UnorderedLinkMsg, MsgError>)
        ensures
            final(reader).whole() == old(reader).whole(),
            reads_as(read_msg_body(1, old(reader).rest()), r, final(reader).rest()),
    {
        match check_preamble(reader) {
            Ok(()) => {},
            Err(e) => return Err(e),
        }
        match Self::read_link_and_cfg(reader) {
            Ok((link_id, cfg)) => Ok(UnorderedLinkMsg::Welcome { cfg, link_id }),
            Err(e) => Err(e),
        }
    }

    fn read_connect(reader: &mut Cursor) -> (r: Result<UnorderedLinkMsg, MsgError>)
        ensures
            final(reader).whole() == old(reader).whole(),
            reads_as(read_msg_body(2, old(reader).rest()), r, final(reader).rest()),
    {
        match check_preamble(reader) {
            Ok(()) => {},
            Err(e) => return Err(e),
        }
        let group_id: u64 = match reader.read_u64() {
            Ok(id) => id,
            Err(e) => return Err(e),
        };
        let len: usize = match reader.read_u16() {
            Ok(n) => n as usize,
            Err(e) => return Err(e),
        };
        let user_data = match reader.read_exact(len) {
            Ok(bytes) => bytes,
            Err(e) => return Err(e),
        };
        match UnorderedCfg::read(reader) {
            Ok(cfg) => Ok(UnorderedLinkMsg::Connect { group_id, user_data, cfg }),
            Err(e) => Err(e),
        }
    }

    fn read_data(reader: &mut Cursor) -> (r: Result<UnorderedLinkMsg, MsgError>)
        ensures
            final(reader).whole() == old(reader).whole(),
            reads_as(read_msg_body(7, old(reader).rest()), r, final(reader).rest()),
    {
        let link_id = match reader.read_u128() {
            Ok(id) => LinkId(id),
            Err(e) => return Err(e),
        };
        let session_id: u64 = match reader.read_u64() {
            Ok(id) => id,
            Err(e) => return Err(e),
        };
        let original_client = match read_client_addr(reader) {
            Ok(client) => client,
            Err(e) => return Err(e),
        };
        let len: usize = match reader.read_u32() {
            Ok(n) => n as usize,
            Err(e) => return Err(e),
        };
        match reader.read_exact(len) {
            Ok(payload) => Ok(
                UnorderedLinkMsg::Data { link_id, session_id, original_client, payload },
            ),
            Err(e) => Err(e),
        }
    }

    fn read_link_status(reader: &mut Cursor) -> (r: Result<UnorderedLinkMsg, MsgError>)
        ensures
            final(reader).whole() == old(reader).whole(),
            reads_as(read_msg_body(8, old(reader).rest()), r, final(reader).rest()),
    {
        let link_id = match reader.read_u128() {
            Ok(id) => LinkId(id),
            Err(e) => return Err(e),
        };
        match LinkStatus::read(reader) {
            Ok(status) => Ok(UnorderedLinkMsg::LinkStatus { link_id, status }),
            Err(e) => Err(e),
        }
    }

    fn read_goodbye(reader: &mut Cursor) -> (r: Result<UnorderedLinkMsg, MsgError>)
        ensures
            final(reader).whole() == old(reader).whole(),
            reads_as(read_msg_body(9, old(reader).rest()), r, final(reader).rest()),
    {
        let len: usize = match reader.read_u16() {
            Ok(n) => n as usize,
            Err(e) => return Err(e),
        };
        let bytes = match reader.read_exact(len) {
            Ok(bytes) => bytes,
            Err(e) => return Err(e),
        };
        match text_from_utf8(bytes) {
            Some(reason) => Ok(UnorderedLinkMsg::Goodbye { reason }),
            None => Err(MsgError::InvalidUtf8),
        }
    }

    /// Reads a message.
    pub fn read(reader: &mut Cursor) -> (r: Result<UnorderedLinkMsg, MsgError>)
        ensures
            final(reader).whole() == old(reader).whole(),
            reads_as(read_msg(old(reader).rest()), r, final(reader).rest()),
    {
        let kind: u8 = match reader.read_u8() {
            Ok(kind) => kind,
            Err(e) => return Err(e),
        };
        match kind {
            1 => Self::read_welcome(reader),
            2 => Self::read_connect(reader),
            3 => match Self::read_link_and_cfg(reader) {
                Ok((link_id, cfg)) => Ok(UnorderedLinkMsg::Accepted { link_id, cfg }),
                Err(e) => Err(e),
            },
            4 => match RefusedReason::read(reader) {
                Ok(reason) => Ok(UnorderedLinkMsg::Refused { reason }),
                Err(e) => Err(e),
            },
            5 => match reader.read_u64() {
                Ok(timestamp) => Ok(UnorderedLinkMsg::Ping { timestamp }),
                Err(e) => Err(e),
            },
            6 => match reader.read_u64() {
                Ok(timestamp) => Ok(UnorderedLinkMsg::Pong { timestamp }),
                Err(e) => Err(e),
            },
            7 => Self::read_data(reader),
            8 => Self::read_link_status(reader),
            9 => Self::read_goodbye(reader),
            _ => Err(MsgError::UnknownMessageType),
        }
    }
}

} // verus!
