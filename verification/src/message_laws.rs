//! What users are told, word by word.
use crate::agg_udp::aggregator::AggregatorError;
use crate::agg_udp::link_stats::{BandwidthLabel, LinkCondition, LinkStats};
use crate::agg_udp::proxy;
use crate::agg_udp::server::ServerError;
use crate::join;
use crate::join::{JoinError, JoinErrorRepr};
use crate::kcp::connector::KcpConnector;
use crate::kcp::filter::KcpLinkFilter;
use crate::kcp::link_tag::{Direction, KcpLinkTag};
use crate::kcp::util::{InvalidInput, IpVersion};
use crate::text;
use crate::udp::connector::{UdpConnectError, UdpConnector, UdpLinkTag};
use crate::unordered_cfg::LoadBalanceStrategy;
use crate::unordered_task::{SendRefusal, UnorderedAggError};
use crate::wire::MsgError;
use vstd::prelude::*;

verus! {

/// What is said of a message that cannot be read or written, also where sending is refused
/// for it.
pub proof fn message_errors_are_told(e: MsgError, s: &str, refusal: &str, none: &str)
    requires
        call_ensures(MsgError::message, (&e,), s),
        call_ensures(SendRefusal::message, (&SendRefusal::Invalid(e),), refusal),
        call_ensures(SendRefusal::message, (&SendRefusal::NoLinks,), none),
    ensures
        s@ == (match e {
            MsgError::UnexpectedEof => "failed to fill whole buffer"@,
            MsgError::InvalidMagic => "invalid magic"@,
            MsgError::UnsupportedVersion => "unsupported version"@,
            MsgError::UnknownMessageType => "unknown message type"@,
            MsgError::UnknownAddressType => "unknown address type"@,
            MsgError::InvalidUtf8 => "invalid UTF-8 in reason"@,
            MsgError::UnknownRefusedReason => "unknown refused reason"@,
            MsgError::UnknownLinkStatus => "unknown link status"@,
            MsgError::InvalidSendQueue => "invalid send_queue"@,
            MsgError::InvalidRecvQueue => "invalid recv_queue"@,
            MsgError::UnknownStrategy => "unknown load balance strategy"@,
            MsgError::InvalidConnectQueue => "invalid connect_queue"@,
            MsgError::InvalidNodeRole => "invalid node_role"@,
            MsgError::UserDataTooLong => "user data too long"@,
            MsgError::PayloadTooLong => "payload too long"@,
            MsgError::ReasonTooLong => "reason too long"@,
        }),
        refusal@ == s@,
        none@ == "No links available"@,
{
}

/// What is said of an aggregation that cannot do what was asked: the number of links, the
/// link, and the underlying error are named where there are any.
pub proof fn aggregation_errors_are_told(
    e: UnorderedAggError,
    link: &str,
    s: String,
    source: Option<&String>,
    n: usize,
    number: String,
)
    requires
        call_ensures(UnorderedAggError::message, (&e, link), s),
        call_ensures(UnorderedAggError::source, (&e,), source),
        call_ensures(text::decimal_text, (n as u128,), number),
    ensures
        e matches UnorderedAggError::NoHealthyLinks { total_links } ==> (total_links == n ==> s@
            == "No healthy links available out of "@ + number@ + " total links"@),
        e is NoLinksAvailable ==> s@ == "No links are available for sending data"@,
        e is LinkNotFound ==> s@ == "Link "@ + link@ + " not found"@,
        e is LinkUnhealthy ==> s@ == "Link "@ + link@ + " is unhealthy"@,
        e matches UnorderedAggError::NetworkError { link_id, source: cause } ==> s@ == (
        if link_id is Some {
            "Network error on link "@ + link@ + ": "@ + cause@
        } else {
            "Network error: "@ + cause@
        }) && (source matches Some(t) && t@ == cause@),
        e matches UnorderedAggError::Internal { context, source: cause } ==> match cause {
            Some(c) => s@ == "Internal error in "@ + context@ + ": "@ + c@ && (source matches Some(t)
                && t@ == c@),
            None => s@ == "Internal error in "@ + context@ && source is None,
        },
        e is NoLinksAvailable || e is NoHealthyLinks || e is LinkNotFound || e is LinkUnhealthy
            || e is ChannelClosed || e is TimeoutOrRecvError ==> source is None,
{
}

/// What went wrong between the parts of the program is told with what was being done.
pub proof fn control_errors_are_told(
    error: &str,
    sending: UnorderedAggError,
    waiting: UnorderedAggError,
    s: String,
    w: String,
)
    requires
        call_ensures(UnorderedAggError::from_send_error, (error,), sending),
        call_ensures(UnorderedAggError::from_recv_error, (error,), waiting),
        call_ensures(UnorderedAggError::message, (&sending, ""), s),
        call_ensures(UnorderedAggError::message, (&waiting, ""), w),
    ensures
        sending is ChannelClosed,
        waiting is TimeoutOrRecvError,
        s@ == "Control channel operation failed (channel closed or send error): "@ + (
        "sending control message: "@ + error@),
        w@ == "Operation '"@ + ("waiting for oneshot response: "@ + error@)
            + "' timed out or failed to receive response"@,
{
}

/// What is said of packets that the proxy cannot send, on either side.
pub proof fn proxy_errors_are_told(a: AggregatorError, b: ServerError, s: String, t: String)
    requires
        call_ensures(AggregatorError::message, (&a,), s),
        call_ensures(ServerError::message, (&b,), t),
    ensures
        s@ == (match a {
            AggregatorError::NoConnections => "No connections available"@,
            AggregatorError::SendFailed(error) => "Send failed: "@ + error@,
        }),
        t@ == (match b {
            ServerError::NoBackend => "No available backend connections"@,
            ServerError::BackendSendFailed(error) => "Backend send failed: "@ + error@,
            ServerError::NoClientConnection => "No available connections for client"@,
            ServerError::ResponseSendFailed(error) => "Response send failed: "@ + error@,
        }),
{
}

/// What is said of settings and interfaces that cannot be used.
pub proof fn setup_errors_are_told(a: InvalidInput, b: UdpConnectError, s: &str, t: &str)
    requires
        call_ensures(InvalidInput::message, (&a,), s),
        call_ensures(UdpConnectError::message, (&b,), t),
    ensures
        s@ == (match a {
            InvalidInput::MutuallyExclusive => "IPv4 and IPv6 options are mutually exclusive"@,
            InvalidInput::NoListener => "at least one listener is required"@,
        }),
        t@ == (match b {
            UdpConnectError::InterfaceNotFound => "network interface not found"@,
            UdpConnectError::NoSuitableAddress => "no suitable IP address on interface"@,
        }),
{
}

/// What is said of a task that did not complete. The text of what it panicked with is that
/// of a string if it is one, else that of a string slice.
pub proof fn failed_tasks_are_told<P>(
    repr: JoinErrorRepr<P>,
    e: JoinError<P>,
    string: Option<&str>,
    slice: Option<&str>,
    payload: Option<&str>,
    s: String,
    back: P,
)
    requires
        call_ensures(JoinError::<P>::new, (repr,), e),
        call_ensures(join::panic_payload_as_str, (string, slice), payload),
        call_ensures(JoinError::<P>::message, (&e, payload), s),
        repr is Panicked ==> call_ensures(JoinError::<P>::into_panic, (e,), back),
    ensures
        payload == (match (string, slice) {
            (Some(x), _) => Some(x),
            (None, y) => y,
        }),
        s@ == (match repr {
            JoinErrorRepr::Aborted => "task was cancelled"@,
            JoinErrorRepr::Failed => "task failed"@,
            JoinErrorRepr::Panicked(_) => match payload {
                Some(x) => "task panicked with message "@ + x@,
                None => "task panicked"@,
            },
        }),
        repr matches JoinErrorRepr::Panicked(p) ==> back == p,
{
}

/// Links are shown with direction and addresses.
pub proof fn links_are_shown(
    kcp: KcpLinkTag,
    udp: UdpLinkTag,
    remote: &str,
    from: &str,
    k: String,
    u: String,
    kcp_name: &str,
    udp_name: &str,
    c: KcpConnector,
    d: UdpConnector,
    c_name: &str,
    d_name: &str,
)
    requires
        call_ensures(KcpLinkTag::label, (&kcp, remote, from), k),
        call_ensures(UdpLinkTag::label, (&udp, remote, from), u),
        call_ensures(KcpLinkTag::transport_name, (&kcp,), kcp_name),
        call_ensures(UdpLinkTag::transport_name, (&udp,), udp_name),
        call_ensures(KcpConnector::name, (&c,), c_name),
        call_ensures(UdpConnector::name, (&d,), d_name),
    ensures
        kcp.direction == Direction::Incoming ==> k@ == "KCP "@ + "<-"@ + " "@ + remote@
            + " (local: "@ + from@ + ")"@,
        kcp.direction == Direction::Outgoing ==> k@ == "KCP "@ + "->"@ + " "@ + remote@
            + " (local: "@ + from@ + ")"@,
        udp.direction == Direction::Incoming ==> u@ == "UDP "@ + "from"@ + " "@ + remote@ + " via "@
            + from@,
        udp.direction == Direction::Outgoing ==> u@ == "UDP "@ + "to"@ + " "@ + remote@ + " via "@
            + from@,
        kcp_name@ == "kcp"@ && c_name@ == kcp_name@,
        udp_name@ == "UDP"@ && d_name@ == udp_name@,
{
}

/// Conditions are shown by one word each; a round-trip time in whole milliseconds, if there
/// is one.
pub proof fn conditions_are_shown(
    c: LinkCondition,
    word: &str,
    stats: LinkStats,
    rtt: String,
    ms: u64,
    number: String,
)
    requires
        call_ensures(LinkCondition::label, (&c,), word),
        call_ensures(LinkStats::rtt_label, (&stats,), rtt),
        call_ensures(text::decimal_text, (ms as u128,), number),
    ensures
        word@ == (match c {
            LinkCondition::Dead => "DEAD"@,
            LinkCondition::Poor => "POOR"@,
            LinkCondition::Slow => "SLOW"@,
            LinkCondition::Active => "ACTIVE"@,
            LinkCondition::Ready => "READY"@,
        }),
        stats.avg_rtt is None ==> rtt@ == "N/A"@,
        stats.avg_rtt matches Some(t) ==> (ms * 1_000_000 <= t.nanos < (ms + 1) * 1_000_000 ==> rtt@
            == number@ + "ms"@),
{
}

/// A bandwidth is shown with its unit; the line of a connection holds its name, bandwidth,
/// condition, errors and round-trip time in that order.
pub proof fn connections_are_shown(
    n: u64,
    number: String,
    mega: &str,
    kilo: String,
    bytes: String,
    large: String,
    key: &str,
    condition: &str,
    loss: &str,
    rtt: &str,
    line: String,
)
    requires
        call_ensures(text::decimal_text, (n as u128,), number),
        call_ensures(proxy::bandwidth_text, (BandwidthLabel::Kilo(n), mega), kilo),
        call_ensures(proxy::bandwidth_text, (BandwidthLabel::Bytes(n), mega), bytes),
        call_ensures(proxy::bandwidth_text, (BandwidthLabel::Mega(n), mega), large),
        call_ensures(proxy::link_line, (key, mega, condition, loss, rtt), line),
    ensures
        kilo@ == number@ + " KB/s"@,
        bytes@ == number@ + " B/s"@,
        large@ == mega@ + " MB/s"@,
        line@ == "  "@ + key@ + ": "@ + mega@ + " | "@ + condition@ + " | "@ + loss@
            + "% if-err | RTT: "@ + rtt@ + "\n"@,
{
}

/// The status names the number of connections, has the line of each, and ends with the
/// packets and the whole kilobytes that were sent, as long as no rate is told.
pub proof fn totals_are_shown(
    connections: usize,
    lines: &Vec<String>,
    packets: u64,
    bytes: u64,
    us: u64,
    pps: &str,
    status: String,
    k: u64,
    c: String,
    p: String,
    kb: String,
)
    requires
        packets <= 1000,
        1024 * k <= bytes < 1024 * (k + 1),
        call_ensures(proxy::status_text, (connections, lines, packets, bytes, us, pps), status),
        call_ensures(text::decimal_text, (connections as u128,), c),
        call_ensures(text::decimal_text, (packets as u128,), p),
        call_ensures(text::decimal_text, (k as u128,), kb),
    ensures
        lines@.len() == 0 ==> status@ == "UDP Proxy - No active connections"@,
        lines@.len() == 1 ==> status@ == "UDP Proxy - "@ + c@ + " active connections:\n"@
            + lines@[0]@ + "Total: "@ + p@ + " packets, "@ + kb@ + " KB forwarded"@,
{
    assert(bytes as nat / 1024 == k);
    reveal_with_fuel(proxy::all_lines, 2);
    if lines@.len() == 1 {
        assert(lines@.drop_last() =~= Seq::empty());
        assert(proxy::all_lines(lines@) =~= lines@[0]@);
        assert(status@ =~= "UDP Proxy - "@ + c@ + " active connections:\n"@ + lines@[0]@
            + "Total: "@ + p@ + " packets, "@ + kb@ + " KB forwarded"@);
    }
}

/// If nothing is chosen, both IP versions are used, links are not filtered, and packets take
/// links in turn.
pub proof fn defaults_are_plain(v: IpVersion, f: KcpLinkFilter, s: LoadBalanceStrategy)
    requires
        call_ensures(IpVersion::default, (), v),
        call_ensures(KcpLinkFilter::default, (), f),
        call_ensures(LoadBalanceStrategy::default, (), s),
    ensures
        v == IpVersion::Both,
        f == KcpLinkFilter::NoFilter,
        s == LoadBalanceStrategy::PacketRoundRobin,
{
}

} // verus!
