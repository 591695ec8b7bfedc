//! Unordered aggregation task.
//!
//! The task is a state machine: it takes control messages and outcomes of
//! transmissions, and says what is to be transmitted, answered or delivered.
//! It is independent of the transport.
use crate::addr::SocketAddr;
use crate::hashing;
use crate::link_state;
use crate::link_state::{LossRate, SendSpeed, UnorderedLinkState};
use crate::load_balancer;
use crate::load_balancer::{BandwidthBase, LinkMetrics, Measure, UnorderedLoadBalancer, WeightedDraw};
use crate::msg_laws;
use crate::text;
use crate::time::{Duration, Instant};
use crate::unordered_cfg::{CfgModel, UnorderedCfg};
use crate::unordered_msg;
use crate::unordered_msg::{LinkId, MsgModel, UnorderedLinkMsg};
use crate::vec_map;
use crate::vec_map::VecMap;
use crate::wire::MsgError;
use vstd::prelude::*;
use vstd::slice::slice_to_vec;
use vstd::string::*;

verus! {

/// Detailed error types for unordered aggregation operations.
#[derive(Debug, Clone)]
pub enum UnorderedAggError {
    /// No links are available for sending data.
    NoLinksAvailable,
    /// No healthy links are available.
    NoHealthyLinks {
        /// Total number of links available.
        total_links: usize,
    },
    /// Specific link not found.
    LinkNotFound {
        /// The link that was not found.
        link_id: LinkId,
    },
    /// Link is unhealthy.
    LinkUnhealthy {
        /// The unhealthy link.
        link_id: LinkId,
    },
    /// Transmission error.
    NetworkError {
        /// Link on which the error occurred.
        link_id: Option<LinkId>,
        /// The underlying error.
        source: String,
    },
    /// Control channel closed or send error.
    ChannelClosed {
        /// Context for the channel error.
        context: String,
    },
    /// Control operation timeout or receive error.
    TimeoutOrRecvError {
        /// The operation that timed out or failed.
        operation: String,
    },
    /// Internal error with context.
    Internal {
        /// Where the error occurred.
        context: String,
        /// Underlying error.
        source: Option<String>,
    },
}

impl UnorderedAggError {
    /// The text shown for this error, `link` being the text shown for its link.
    pub open spec fn text(self, link: Seq<char>) -> Seq<char> {
        match self {
            UnorderedAggError::NoLinksAvailable => "No links are available for sending data"@,
            UnorderedAggError::NoHealthyLinks { total_links } =>
                "No healthy links available out of "@ + text::decimal(total_links as nat)
                + " total links"@,
            UnorderedAggError::LinkNotFound { .. } => "Link "@ + link + " not found"@,
            UnorderedAggError::LinkUnhealthy { .. } => "Link "@ + link + " is unhealthy"@,
            UnorderedAggError::NetworkError { link_id: Some(_), source } =>
                "Network error on link "@ + link + ": "@ + source@,
            UnorderedAggError::NetworkError { link_id: None, source } => "Network error: "@
                + source@,
            UnorderedAggError::ChannelClosed { context } =>
                "Control channel operation failed (channel closed or send error): "@ + context@,
            UnorderedAggError::TimeoutOrRecvError { operation } => "Operation '"@ + operation@
                + "' timed out or failed to receive response"@,
            UnorderedAggError::Internal { context, source: Some(source) } => "Internal error in "@
                + context@ + ": "@ + source@,
            UnorderedAggError::Internal { context, source: None } => "Internal error in "@
                + context@,
        }
    }

    /// Returns the text shown for this error, `link` being the text shown for
    /// its link.
    pub fn message(&self, link: &str) -> (s: String)
        ensures
            s@ == self.text(link@),
    {
        match self {
            UnorderedAggError::NoLinksAvailable => "No links are available for sending data".to_owned(),
            UnorderedAggError::NoHealthyLinks { total_links } => {
                "No healthy links available out of ".to_owned().concat(
                    text::decimal_text(*total_links as u128).as_str(),
                ).concat(" total links")
            },
            UnorderedAggError::LinkNotFound { .. } => "Link ".to_owned().concat(link).concat(
                " not found",
            ),
            UnorderedAggError::LinkUnhealthy { .. } => "Link ".to_owned().concat(link).concat(
                " is unhealthy",
            ),
            UnorderedAggError::NetworkError { link_id: Some(_), source } => {
                "Network error on link ".to_owned().concat(link).concat(": ").concat(
                    source.as_str(),
                )
            },
            UnorderedAggError::NetworkError { link_id: None, source } => {
                "Network error: ".to_owned().concat(source.as_str())
            },
            UnorderedAggError::ChannelClosed { context } => {
                "Control channel operation failed (channel closed or send error): ".to_owned().concat(
                context.as_str())
            },
            UnorderedAggError::TimeoutOrRecvError { operation } => {
                "Operation '".to_owned().concat(operation.as_str()).concat(
                    "' timed out or failed to receive response",
                )
            },
            UnorderedAggError::Internal { context, source: Some(source) } => {
                "Internal error in ".to_owned().concat(context.as_str()).concat(": ").concat(
                    source.as_str(),
                )
            },
            UnorderedAggError::Internal { context, source: None } => {
                "Internal error in ".to_owned().concat(context.as_str())
            },
        }
    }

    /// Returns the underlying error, if there is one.
    pub fn source(&self) -> (source: Option<&String>)
        ensures
            match *self {
                UnorderedAggError::NetworkError { source: s, .. } => source matches Some(t) && t@
                    == s@,
                UnorderedAggError::Internal { source: Some(s), .. } => source matches Some(t) && t@
                    == s@,
                _ => source is None,
            },
    {
        match self {
            UnorderedAggError::NetworkError { source, .. } => Some(source),
            UnorderedAggError::Internal { source: Some(source), .. } => Some(source),
            _ => None,
        }
    }

    /// The error for a control message that could not be sent.
    pub fn from_send_error(error: &str) -> (e: UnorderedAggError)
        ensures
            e matches UnorderedAggError::ChannelClosed { context } && context@
                == "sending control message: "@ + error@,
    {
        UnorderedAggError::ChannelClosed {
            context: "sending control message: ".to_owned().concat(error),
        }
    }

    /// The error for an answer that was not received.
    pub fn from_recv_error(error: &str) -> (e: UnorderedAggError)
        ensures
            e matches UnorderedAggError::TimeoutOrRecvError { operation } && operation@
                == "waiting for oneshot response: "@ + error@,
    {
        UnorderedAggError::TimeoutOrRecvError {
            operation: "waiting for oneshot response: ".to_owned().concat(error),
        }
    }
}

/// Result type for unordered aggregation operations.
pub type UnorderedAggResult<T> = Result<T, UnorderedAggError>;

/// Detailed information about a send operation result.
#[derive(Debug, Clone, Copy, PartialEq, Eq, Structural)]
pub struct SendResult {
    /// Number of bytes sent.
    pub bytes_sent: usize,
    /// Link used for sending.
    pub link_id: LinkId,
    /// Time taken for the operation.
    pub duration: Duration,
    /// Whether this was a retry operation.
    pub was_retry: bool,
}

/// Data received from a link with optional session information.
#[derive(Debug, Clone, PartialEq, Eq)]
pub struct ReceivedData {
    /// The data.
    pub data: Vec<u8>,
    /// Link that received the data.
    pub link_id: LinkId,
    /// Session for transparent proxying; zero means no session.
    pub session_id: u64,
    /// Original client address for transparent proxying.
    pub original_client: Option<SocketAddr>,
}

impl ReceivedData {
    /// Creates received data without session information.
    pub fn new(data: Vec<u8>, link_id: LinkId) -> (r: ReceivedData)
        ensures
            r.data@ == data@,
            r.link_id == link_id,
            r.session_id == 0,
            r.original_client is None,
    {
        ReceivedData { data, link_id, session_id: 0, original_client: None }
    }

    /// Creates received data with session information.
    pub fn with_session(
        data: Vec<u8>,
        link_id: LinkId,
        session_id: u64,
        original_client: Option<SocketAddr>,
    ) -> (r: ReceivedData)
        ensures
            r.data@ == data@,
            r.link_id == link_id,
            r.session_id == session_id,
            r.original_client == original_client,
    {
        ReceivedData { data, link_id, session_id, original_client }
    }
}

/// Statistics for a single unordered link.
#[derive(Debug, Clone)]
pub struct UnorderedLinkStats {
    /// Remote address.
    pub remote_addr: String,
    /// Whether the link is healthy.
    pub is_healthy: bool,
    /// Bytes sent through this link.
    pub bytes_sent: u64,
    /// Bytes received from this link.
    pub bytes_received: u64,
    /// Last communication time.
    pub last_seen: Instant,
    /// Average round-trip time in whole milliseconds, as last measured.
    pub avg_rtt: u128,
    /// Current sending bandwidth, as last measured.
    pub bandwidth: Measure,
    /// Packet loss rate.
    pub packet_loss_rate: LossRate,
    /// Number of successful transmissions.
    pub successful_sends: u64,
    /// Number of failed transmissions.
    pub failed_sends: u64,
}

/// Unordered aggregation statistics.
#[derive(Debug, Clone)]
pub struct UnorderedAggStats {
    /// Number of links.
    pub active_links: usize,
    /// Number of healthy links.
    pub healthy_links: usize,
    /// Bytes sent across all links.
    pub total_bytes_sent: u64,
    /// Bytes received across all links.
    pub total_bytes_received: u64,
    /// Statistics of each link, in the order of the links.
    pub link_stats: Vec<(LinkId, UnorderedLinkStats)>,
}

/// Bytes sent through all links.
pub open spec fn total_sent(links: Seq<(LinkId, UnorderedLinkState)>) -> nat
    decreases links.len(),
{
    if links.len() == 0 {
        0
    } else {
        total_sent(links.drop_last()) + links.last().1.bytes_sent as nat
    }
}

/// Bytes received through all links.
pub open spec fn total_received(links: Seq<(LinkId, UnorderedLinkState)>) -> nat
    decreases links.len(),
{
    if links.len() == 0 {
        0
    } else {
        total_received(links.drop_last()) + links.last().1.bytes_received as nat
    }
}

proof fn totals_grow(links: Seq<(LinkId, UnorderedLinkState)>, i: int)
    requires
        0 <= i <= links.len(),
    ensures
        total_sent(links.take(i)) <= total_sent(links),
        total_received(links.take(i)) <= total_received(links),
    decreases links.len(),
{
    if i == links.len() {
        assert(links.take(i) =~= links);
    } else {
        totals_grow(links.drop_last(), i);
        assert(links.drop_last().take(i) =~= links.take(i));
    }
}

/// What the statistics say of a link: its state, its loss rate, and what was
/// measured of it. Where nothing was measured, that is zero.
pub open spec fn reports(
    stats: UnorderedLinkStats,
    state: UnorderedLinkState,
    measured: Option<LinkMetrics>,
) -> bool {
    &&& stats.remote_addr@ == state.remote_addr@
    &&& stats.is_healthy == state.is_healthy
    &&& stats.bytes_sent == state.bytes_sent
    &&& stats.bytes_received == state.bytes_received
    &&& stats.last_seen == state.last_seen
    &&& stats.successful_sends == state.successful_sends
    &&& stats.failed_sends == state.failed_sends
    &&& stats.packet_loss_rate.failed == state.failed_sends
    &&& stats.packet_loss_rate.successful == state.successful_sends
    &&& match measured {
        Some(m) => stats.avg_rtt == m.avg_rtt && stats.bandwidth == m.send_bandwidth,
        None => stats.avg_rtt == 0 && stats.bandwidth.rank == Some(0i64),
    }
}

/// What `stats` say of `links`, of which `metrics` were measured, is true.
pub open spec fn summarizes(
    stats: UnorderedAggStats,
    links: Seq<(LinkId, UnorderedLinkState)>,
    metrics: Seq<(LinkId, LinkMetrics)>,
) -> bool {
    &&& stats.active_links == links.len()
    &&& stats.healthy_links == load_balancer::healthy_ids(links).len()
    &&& stats.total_bytes_sent == total_sent(links)
    &&& stats.total_bytes_received == total_received(links)
    &&& stats.link_stats@.len() == links.len()
    &&& forall|i: int|
        0 <= i < links.len() ==> (#[trigger] stats.link_stats@[i]).0 == links[i].0 && reports(
            stats.link_stats@[i].1,
            links[i].1,
            vec_map::value(metrics, links[i].0),
        )
}

/// The bytes that carry `data` over a link.
pub open spec fn frame_bytes(
    data: Seq<u8>,
    link_id: LinkId,
    session_id: u64,
    original_client: Option<SocketAddr>,
) -> Seq<u8> {
    unordered_msg::msg_bytes(MsgModel::Data { link_id, session_id, original_client, payload: data })
}

/// Wraps data with full session context.
pub fn frame_with_session(
    data: &[u8],
    link_id: LinkId,
    session_id: u64,
    original_client: Option<SocketAddr>,
) -> (r: Result<Vec<u8>, MsgError>)
    ensures
        match r {
            Ok(frame) => data@.len() <= 0xFFFF_FFFF && frame@ == frame_bytes(
                data@,
                link_id,
                session_id,
                original_client,
            ),
            Err(e) => data@.len() > 0xFFFF_FFFF && e == MsgError::PayloadTooLong,
        },
{
    let msg = UnorderedLinkMsg::Data {
        link_id,
        session_id,
        original_client,
        payload: slice_to_vec(data),
    };
    let mut frame: Vec<u8> = Vec::new();
    match msg.write(&mut frame) {
        Ok(()) => {
            assert(frame@ =~= frame_bytes(data@, link_id, session_id, original_client));
            Ok(frame)
        },
        Err(e) => Err(e),
    }
}

/// Wraps data that has no session of its own: the session is derived from the
/// data, and no link is named.
pub fn frame_plain(data: &[u8]) -> (r: Result<Vec<u8>, MsgError>)
    ensures
        match r {
            Ok(frame) => data@.len() <= 0xFFFF_FFFF && frame@ == frame_bytes(
                data@,
                LinkId(0),
                hashing::session_of(data@),
                None,
            ),
            Err(e) => data@.len() > 0xFFFF_FFFF && e == MsgError::PayloadTooLong,
        },
{
    frame_with_session(data, LinkId(0), hashing::data_session_id(data), None)
}

/// What follows from a request to send.
#[derive(Debug, Clone)]
pub enum SendStep {
    /// The request fails.
    Refused(UnorderedAggError),
    /// The frame is to be transmitted over the link.
    Transmit {
        /// The link.
        link_id: LinkId,
        /// The bytes to transmit.
        frame: Vec<u8>,
    },
}

/// Why data cannot be sent.
#[derive(Debug, Clone, Copy, PartialEq, Eq, Structural)]
pub enum SendRefusal {
    /// There are no links.
    NoLinks,
    /// The data is too long to be wrapped.
    Invalid(MsgError),
}

impl SendRefusal {
    /// Returns the text shown for this error.
    pub fn message(&self) -> (text: &'static str)
        ensures
            match *self {
                SendRefusal::NoLinks => text@ == "No links available"@,
                SendRefusal::Invalid(e) => text@ == e.text(),
            },
    {
        match self {
            SendRefusal::NoLinks => "No links available",
            SendRefusal::Invalid(e) => e.message(),
        }
    }
}

/// Control messages for the unordered aggregation task.
#[derive(Debug, Clone)]
pub enum UnorderedControlMsg {
    /// Add a new link.
    AddLink {
        /// Link identifier.
        link_id: LinkId,
        /// Remote address for display.
        remote_addr: String,
    },
    /// Remove a link.
    RemoveLink {
        /// Link identifier.
        link_id: LinkId,
    },
    /// Update link health status.
    UpdateLinkHealth {
        /// Link identifier.
        link_id: LinkId,
        /// Whether the link is healthy.
        is_healthy: bool,
    },
    /// Get aggregation statistics.
    GetStats,
    /// Send data through the aggregation.
    SendData {
        /// Data to be sent.
        data: Vec<u8>,
    },
    /// Send data through a specific link.
    SendDataViaLink {
        /// Data to be sent.
        data: Vec<u8>,
        /// Link identifier.
        link_id: LinkId,
    },
    /// Send data through the aggregation with session information.
    SendDataWithSession {
        /// Data to be sent.
        data: Vec<u8>,
        /// Session for transparent proxying.
        session_id: u64,
        /// Original client address for transparent proxying.
        original_client: Option<SocketAddr>,
    },
    /// Data received from a link.
    ReceiveData {
        /// Received data.
        data: Vec<u8>,
        /// Link that received the data.
        link_id: LinkId,
    },
    /// Data received from a link, with session information.
    ReceiveDataWithSession {
        /// Received data.
        data: Vec<u8>,
        /// Link that received the data.
        link_id: LinkId,
        /// Session for transparent proxying.
        session_id: u64,
        /// Original client address for transparent proxying.
        original_client: Option<SocketAddr>,
    },
}

/// What a control message calls for.
#[derive(Debug, Clone)]
pub enum ControlAction {
    /// Nothing.
    Done,
    /// Answer with statistics.
    Stats(UnorderedAggStats),
    /// Go on with a request to send.
    Send(SendStep),
    /// Hand data to the application.
    Deliver(ReceivedData),
}

/// Coordinates several unordered links for bandwidth aggregation.
#[derive(Debug, Clone)]
pub struct UnorderedAggTask {
    config: UnorderedCfg,
    links: VecMap<LinkId, UnorderedLinkState>,
    load_balancer: UnorderedLoadBalancer,
}

/// The links once the one at `link_id` has been replaced.
pub open spec fn replaced(
    links: Seq<(LinkId, UnorderedLinkState)>,
    link_id: LinkId,
    state: UnorderedLinkState,
) -> Seq<(LinkId, UnorderedLinkState)> {
    links.update(vec_map::place(links, link_id), (link_id, state))
}

impl UnorderedAggTask {
    /// The links and their state, in the order in which they were added.
    pub closed spec fn links(&self) -> Seq<(LinkId, UnorderedLinkState)> {
        self.links@
    }

    /// The load balancer.
    pub closed spec fn balancer(&self) -> UnorderedLoadBalancer {
        self.load_balancer
    }

    /// The configuration.
    pub closed spec fn cfg(&self) -> CfgModel {
        self.config@
    }

    /// No link is there twice.
    pub open spec fn wf(&self) -> bool {
        vec_map::distinct(self.links()) && self.balancer().wf()
    }

    /// Nothing but the links may differ.
    pub open spec fn same_rest(&self, other: UnorderedAggTask) -> bool {
        self.cfg() == other.cfg() && self.balancer() == other.balancer()
    }

    /// Creates a task without links.
    pub fn new(config: UnorderedCfg) -> (task: UnorderedAggTask)
        ensures
            task.wf(),
            task.links() == Seq::<(LinkId, UnorderedLinkState)>::empty(),
            task.cfg() == config@,
            task.balancer().strategy() == config.load_balance,
            task.balancer().role() == config.node_role,
            task.balancer().index() == 0,
            task.balancer().metrics().len() == 0,
    {
        let load_balancer = UnorderedLoadBalancer::new(config.load_balance, config.node_role);
        UnorderedAggTask { config, links: VecMap::new(), load_balancer }
    }

    /// Adds a link, in place of one with the same identifier.
    pub fn add_link(&mut self, link_id: LinkId, remote_addr: String, now: Instant)
        requires
            old(self).wf(),
        ensures
            final(self).wf(),
            final(self).same_rest(*old(self)),
            vec_map::value(final(self).links(), link_id) matches Some(state) && state.link_id
                == link_id && state.remote_addr@ == remote_addr@ && state.last_seen == now
                && state.fresh() && final(self).links() == vec_map::with(
                old(self).links(),
                link_id,
                state,
            ),
    {
        let state = UnorderedLinkState::new(link_id, remote_addr, now);
        proof {
            vec_map::with_stores(self.links@, link_id, state);
        }
        self.links.insert(link_id, state);
    }

    /// Removes a link and returns whether it was there.
    pub fn remove_link(&mut self, link_id: LinkId) -> (removed: bool)
        requires
            old(self).wf(),
        ensures
            final(self).wf(),
            final(self).same_rest(*old(self)),
            removed == vec_map::has(old(self).links(), link_id),
            final(self).links() == vec_map::without(old(self).links(), link_id),
    {
        self.links.remove(&link_id).is_some()
    }

    /// Updates the health status of a link.
    pub fn update_link_health(&mut self, link_id: LinkId, is_healthy: bool)
        requires
            old(self).wf(),
        ensures
            final(self).wf(),
            final(self).same_rest(*old(self)),
            final(self).links() == (match vec_map::value(old(self).links(), link_id) {
                Some(state) => replaced(
                    old(self).links(),
                    link_id,
                    (UnorderedLinkState { is_healthy, ..state }),
                ),
                None => old(self).links(),
            }),
    {
        let i: usize = self.links.position(&link_id);
        if i < self.links.len() {
            let state = self.links.value_at_mut(i);
            state.is_healthy = is_healthy;
        }
    }

    /// Returns whether the byte counts of all links add up to numbers that fit.
    pub fn totals_fit(&self) -> (r: bool)
        ensures
            r == (total_sent(self.links()) <= u64::MAX && total_received(self.links())
                <= u64::MAX),
    {
        let mut sent: u64 = 0;
        let mut received: u64 = 0;
        let n: usize = self.links.len();
        let mut i: usize = 0;
        while i < n
            invariant
                i <= n,
                n == self.links@.len(),
                sent == total_sent(self.links@.take(i as int)),
                received == total_received(self.links@.take(i as int)),
            decreases n - i,
        {
            let state = self.links.value_at(i);
            proof {
                assert(self.links@.take(i + 1).drop_last() =~= self.links@.take(i as int));
                totals_grow(self.links@, i + 1);
            }
            match (sent.checked_add(state.bytes_sent), received.checked_add(state.bytes_received)) {
                (Some(s), Some(r)) => {
                    sent = s;
                    received = r;
                },
                _ => return false,
            }
            i = i + 1;
        }
        assert(self.links@.take(n as int) =~= self.links@);
        true
    }

    /// Returns the current statistics.
    pub fn get_stats(&self) -> (stats: UnorderedAggStats)
        requires
            total_sent(self.links()) <= u64::MAX,
            total_received(self.links()) <= u64::MAX,
        ensures
            summarizes(stats, self.links(), self.balancer().metrics()),
    {
        let mut total_bytes_sent: u64 = 0;
        let mut total_bytes_received: u64 = 0;
        let mut healthy_links: usize = 0;
        let mut link_stats: Vec<(LinkId, UnorderedLinkStats)> = Vec::new();
        let n: usize = self.links.len();
        let mut i: usize = 0;
        while i < n
            invariant
                i <= n,
                n == self.links@.len(),
                total_sent(self.links@) <= u64::MAX,
                total_received(self.links@) <= u64::MAX,
                total_bytes_sent == total_sent(self.links@.take(i as int)),
                total_bytes_received == total_received(self.links@.take(i as int)),
                healthy_links == load_balancer::healthy_ids(self.links@.take(i as int)).len(),
                healthy_links <= i,
                link_stats@.len() == i,
                forall|j: int|
                    0 <= j < i ==> (#[trigger] link_stats@[j]).0 == self.links@[j].0 && reports(
                        link_stats@[j].1,
                        self.links@[j].1,
                        vec_map::value(self.load_balancer.metrics(), self.links@[j].0),
                    ),
            decreases n - i,
        {
            let state = self.links.value_at(i);
            proof {
                assert(self.links@.take(i + 1).drop_last() =~= self.links@.take(i as int));
                totals_grow(self.links@, i + 1);
            }
            total_bytes_sent = total_bytes_sent + state.bytes_sent;
            total_bytes_received = total_bytes_received + state.bytes_received;
            if state.is_healthy {
                healthy_links = healthy_links + 1;
            }
            let link_id = *self.links.key_at(i);
            let (avg_rtt, bandwidth): (u128, Measure) = match self.load_balancer.link_metrics(link_id) {
                Some(m) => (m.avg_rtt, m.send_bandwidth),
                None => (0, Measure { rank: Some(0) }),
            };
            link_stats.push(
                (
                    link_id,
                    UnorderedLinkStats {
                        remote_addr: state.remote_addr.clone(),
                        is_healthy: state.is_healthy,
                        bytes_sent: state.bytes_sent,
                        bytes_received: state.bytes_received,
                        last_seen: state.last_seen,
                        avg_rtt,
                        bandwidth,
                        packet_loss_rate: state.packet_loss_rate(),
                        successful_sends: state.successful_sends,
                        failed_sends: state.failed_sends,
                    },
                ),
            );
            i = i + 1;
        }
        assert(self.links@.take(n as int) =~= self.links@);
        UnorderedAggStats {
            active_links: n,
            healthy_links,
            total_bytes_sent,
            total_bytes_received,
            link_stats,
        }
    }

    /// `step` is what a request to send `data` over the chosen link leads to,
    /// and `after` is the state afterwards.
    pub open spec fn sends_with_session(
        &self,
        after: UnorderedAggTask,
        data: Seq<u8>,
        session_id: u64,
        original_client: Option<SocketAddr>,
        draw: WeightedDraw,
        now: Instant,
        step: SendStep,
    ) -> bool {
        let links = self.links();
        if links.len() == 0 {
            &&& step matches SendStep::Refused(UnorderedAggError::NoLinksAvailable)
            &&& after.links() == links
            &&& after.same_rest(*self)
        } else {
            exists|id: LinkId|
                #![trigger vec_map::value(links, id)]
                {
                    &&& self.balancer().would_choose(links, draw, Some(id))
                    &&& self.balancer().advanced(after.balancer(), links)
                    &&& after.cfg() == self.cfg()
                    &&& vec_map::value(links, id) matches Some(state)
                    &&& if !state.is_healthy {
                        &&& step matches SendStep::Refused(
                            UnorderedAggError::LinkUnhealthy { link_id },
                        ) && link_id == id
                        &&& after.links() == links
                    } else if data.len() > 0xFFFF_FFFF {
                        self.refused_payload(after, id, state, now, step)
                    } else {
                        &&& step matches SendStep::Transmit { link_id, frame } && link_id == id
                            && frame@ == frame_bytes(data, id, session_id, original_client)
                        &&& after.links() == links
                    }
                }
        }
    }

    /// The payload does not fit a frame, which counts as a failed send.
    pub open spec fn refused_payload(
        &self,
        after: UnorderedAggTask,
        id: LinkId,
        state: UnorderedLinkState,
        now: Instant,
        step: SendStep,
    ) -> bool {
        &&& step matches SendStep::Refused(UnorderedAggError::NetworkError { link_id, source })
            && link_id == Some(id) && source@ == MsgError::PayloadTooLong.text()
        &&& vec_map::value(after.links(), id) matches Some(failed) && state.send_failed(failed, now)
            && after.links() == replaced(self.links(), id, failed)
    }

    /// `step` is what a request to send `data` over the link `id` leads to, and
    /// `after` is the state afterwards.
    pub open spec fn sends_via_link(
        &self,
        after: UnorderedAggTask,
        data: Seq<u8>,
        id: LinkId,
        now: Instant,
        step: SendStep,
    ) -> bool {
        &&& after.same_rest(*self)
        &&& match vec_map::value(self.links(), id) {
            None => {
                &&& step matches SendStep::Refused(UnorderedAggError::LinkNotFound { link_id })
                    && link_id == id
                &&& after.links() == self.links()
            },
            Some(state) => if !state.is_healthy {
                &&& step matches SendStep::Refused(UnorderedAggError::LinkUnhealthy { link_id })
                    && link_id == id
                &&& after.links() == self.links()
            } else if data.len() > 0xFFFF_FFFF {
                self.refused_payload(after, id, state, now, step)
            } else {
                &&& step matches SendStep::Transmit { link_id, frame } && link_id == id && frame@
                    == frame_bytes(data, LinkId(0), hashing::session_of(data), None)
                &&& after.links() == self.links()
            },
        }
    }

    fn fail_payload(&mut self, i: usize, link_id: LinkId, e: MsgError, now: Instant) -> (step:
        SendStep)
        requires
            old(self).wf(),
            i == vec_map::place(old(self).links(), link_id),
            i < old(self).links().len(),
            e == MsgError::PayloadTooLong,
        ensures
            final(self).wf(),
            final(self).same_rest(*old(self)),
            old(self).refused_payload(
                *final(self),
                link_id,
                old(self).links()[i as int].1,
                now,
                step,
            ),
    {
        let ghost links = self.links@;
        let state = self.links.value_at_mut(i);
        state.record_send_failure(now);
        proof {
            vec_map::place_is_first(links, link_id);
            vec_map::with_stores(links, link_id, self.links@[i as int].1);
        }
        SendStep::Refused(
            UnorderedAggError::NetworkError {
                link_id: Some(link_id),
                source: e.message().to_owned(),
            },
        )
    }

    /// Sends data through the aggregation with session information.
    pub fn send_data_with_session(
        &mut self,
        data: &[u8],
        session_id: u64,
        original_client: Option<SocketAddr>,
        draw: &WeightedDraw,
        now: Instant,
    ) -> (step: SendStep)
        requires
            old(self).wf(),
        ensures
            final(self).wf(),
            old(self).sends_with_session(
                *final(self),
                data@,
                session_id,
                original_client,
                *draw,
                now,
                step,
            ),
    {
        if self.links.is_empty() {
            return SendStep::Refused(UnorderedAggError::NoLinksAvailable);
        }
        let ghost balancer = self.load_balancer;
        let choice = self.load_balancer.select_link_with_session(&self.links, draw, session_id);
        proof {
            load_balancer::choice_is_healthy(
                balancer.strategy(),
                balancer.index(),
                balancer.metrics(),
                self.links@,
                *draw,
                choice,
            );
        }
        let id = match choice {
            Some(id) => id,
            None => return SendStep::Refused(
                UnorderedAggError::NoHealthyLinks { total_links: self.links.len() },
            ),
        };
        let i: usize = self.links.position(&id);
        proof {
            vec_map::place_is_first(self.links@, id);
            assert(vec_map::value(self.links@, id) == Some(self.links@[i as int].1));
        }
        if !self.links.value_at(i).is_healthy {
            return SendStep::Refused(UnorderedAggError::LinkUnhealthy { link_id: id });
        }
        match frame_with_session(data, id, session_id, original_client) {
            Ok(frame) => SendStep::Transmit { link_id: id, frame },
            Err(e) => self.fail_payload(i, id, e, now),
        }
    }

    /// Sends data through the aggregation. The session is derived from the data.
    pub fn send_data(&mut self, data: &[u8], draw: &WeightedDraw, now: Instant) -> (step: SendStep)
        requires
            old(self).wf(),
        ensures
            final(self).wf(),
            old(self).sends_with_session(
                *final(self),
                data@,
                hashing::session_of(data@),
                None,
                *draw,
                now,
                step,
            ),
    {
        let session_id: u64 = hashing::data_session_id(data);
        self.send_data_with_session(data, session_id, None, draw, now)
    }

    /// Sends data through a specific link.
    pub fn send_data_via_link(&mut self, data: &[u8], link_id: LinkId, now: Instant) -> (step:
        SendStep)
        requires
            old(self).wf(),
        ensures
            final(self).wf(),
            old(self).sends_via_link(*final(self), data@, link_id, now, step),
    {
        let i: usize = self.links.position(&link_id);
        if i >= self.links.len() {
            return SendStep::Refused(UnorderedAggError::LinkNotFound { link_id });
        }
        if !self.links.value_at(i).is_healthy {
            return SendStep::Refused(UnorderedAggError::LinkUnhealthy { link_id });
        }
        match frame_plain(data) {
            Ok(frame) => SendStep::Transmit { link_id, frame },
            Err(e) => self.fail_payload(i, link_id, e, now),
        }
    }

    /// Sends data over whichever link the load balancer chooses, healthy or
    /// not.
    pub fn send(&mut self, data: &[u8], draw: &WeightedDraw) -> (r: Result<
        (LinkId, Vec<u8>),
        SendRefusal,
    >)
        requires
            old(self).wf(),
        ensures
            final(self).wf(),
            final(self).cfg() == old(self).cfg(),
            final(self).links() == old(self).links(),
            old(self).balancer().advanced(final(self).balancer(), old(self).links()),
            match r {
                Err(SendRefusal::NoLinks) => old(self).links().len() == 0,
                Err(SendRefusal::Invalid(e)) => old(self).links().len() > 0 && data@.len()
                    > 0xFFFF_FFFF && e == MsgError::PayloadTooLong,
                Ok((id, frame)) => {
                    &&& data@.len() <= 0xFFFF_FFFF
                    &&& old(self).balancer().would_choose(old(self).links(), *draw, Some(id))
                    &&& frame@ == frame_bytes(data@, LinkId(0), hashing::session_of(data@), None)
                },
            },
    {
        if self.links.is_empty() {
            return Err(SendRefusal::NoLinks);
        }
        let choice = self.load_balancer.select_link(&self.links, draw);
        match choice {
            Some(id) => match frame_plain(data) {
                Ok(frame) => Ok((id, frame)),
                Err(e) => Err(SendRefusal::Invalid(e)),
            },
            None => Err(SendRefusal::NoLinks),
        }
    }

    /// Takes note that `bytes` were sent over a link.
    pub fn record_sent(&mut self, link_id: LinkId, bytes: usize, now: Instant)
        requires
            old(self).wf(),
        ensures
            final(self).wf(),
            final(self).same_rest(*old(self)),
            match vec_map::value(old(self).links(), link_id) {
                Some(state) => vec_map::value(final(self).links(), link_id) matches Some(sent)
                    && state.sent(sent, now, bytes as nat) && final(self).links() == replaced(
                    old(self).links(),
                    link_id,
                    sent,
                ),
                None => final(self).links() == old(self).links(),
            },
    {
        let i: usize = self.links.position(&link_id);
        if i < self.links.len() {
            let ghost links = self.links@;
            let state = self.links.value_at_mut(i);
            state.record_sent(now, bytes);
            proof {
                vec_map::place_is_first(links, link_id);
                vec_map::with_stores(links, link_id, self.links@[i as int].1);
            }
        }
    }

    /// Takes note of how a transmission ended.
    pub fn complete_send(
        &mut self,
        link_id: LinkId,
        outcome: Result<usize, String>,
        started: Instant,
        now: Instant,
    ) -> (r: UnorderedAggResult<SendResult>)
        requires
            old(self).wf(),
        ensures
            final(self).wf(),
            final(self).same_rest(*old(self)),
            match (outcome, r) {
                (Ok(bytes), Ok(result)) => {
                    &&& result.bytes_sent == bytes
                    &&& result.link_id == link_id
                    &&& result.duration.nanos == now.since(started)
                    &&& !result.was_retry
                    &&& match vec_map::value(old(self).links(), link_id) {
                        Some(state) => vec_map::value(final(self).links(), link_id) matches Some(
                            sent,
                        ) && state.sent(sent, now, bytes as nat) && final(self).links() == replaced(
                            old(self).links(),
                            link_id,
                            sent,
                        ),
                        None => final(self).links() == old(self).links(),
                    }
                },
                (Err(error), Err(UnorderedAggError::NetworkError { link_id: on, source })) => {
                    &&& on == Some(link_id)
                    &&& source@ == error@
                    &&& match vec_map::value(old(self).links(), link_id) {
                        Some(state) => vec_map::value(final(self).links(), link_id) matches Some(
                            failed,
                        ) && state.send_failed(failed, now) && final(self).links() == replaced(
                            old(self).links(),
                            link_id,
                            failed,
                        ),
                        None => final(self).links() == old(self).links(),
                    }
                },
                _ => false,
            },
    {
        match outcome {
            Ok(bytes) => {
                self.record_sent(link_id, bytes, now);
                Ok(
                    SendResult {
                        bytes_sent: bytes,
                        link_id,
                        duration: now.duration_since(started),
                        was_retry: false,
                    },
                )
            },
            Err(source) => {
                let i: usize = self.links.position(&link_id);
                if i < self.links.len() {
                    let ghost links = self.links@;
                    let state = self.links.value_at_mut(i);
                    state.record_send_failure(now);
                    proof {
                        vec_map::place_is_first(links, link_id);
                        vec_map::with_stores(links, link_id, self.links@[i as int].1);
                    }
                }
                Err(UnorderedAggError::NetworkError { link_id: Some(link_id), source })
            },
        }
    }

    /// The links once `bytes` were received from one of them at `now`.
    pub open spec fn links_after_receiving(
        &self,
        link_id: LinkId,
        bytes: nat,
        now: Instant,
    ) -> Seq<(LinkId, UnorderedLinkState)> {
        match vec_map::value(self.links(), link_id) {
            Some(state) => replaced(self.links(), link_id, state.received(now, bytes)),
            None => self.links(),
        }
    }

    fn record_received(&mut self, link_id: LinkId, bytes: usize, now: Instant)
        requires
            old(self).wf(),
        ensures
            final(self).wf(),
            final(self).same_rest(*old(self)),
            final(self).links() == old(self).links_after_receiving(link_id, bytes as nat, now),
    {
        let i: usize = self.links.position(&link_id);
        if i < self.links.len() {
            let state = self.links.value_at_mut(i);
            state.record_received(now, bytes);
        }
    }

    /// Takes in data from a link. All of it goes to the application: nothing is
    /// reordered and nothing dropped.
    pub fn handle_incoming_data(
        &mut self,
        data: Vec<u8>,
        from_link: LinkId,
        now: Instant,
    ) -> (r: ReceivedData)
        requires
            old(self).wf(),
        ensures
            final(self).wf(),
            final(self).same_rest(*old(self)),
            final(self).links() == old(self).links_after_receiving(from_link, data@.len(), now),
            r.data@ == data@,
            r.link_id == from_link,
            r.session_id == 0,
            r.original_client is None,
    {
        self.record_received(from_link, data.len(), now);
        ReceivedData::new(data, from_link)
    }

    /// Takes in data from a link with session information.
    pub fn handle_incoming_data_with_session(
        &mut self,
        data: Vec<u8>,
        from_link: LinkId,
        session_id: u64,
        original_client: Option<SocketAddr>,
        now: Instant,
    ) -> (r: ReceivedData)
        requires
            old(self).wf(),
        ensures
            final(self).wf(),
            final(self).same_rest(*old(self)),
            final(self).links() == old(self).links_after_receiving(from_link, data@.len(), now),
            r.data@ == data@,
            r.link_id == from_link,
            r.session_id == session_id,
            r.original_client == original_client,
    {
        self.record_received(from_link, data.len(), now);
        ReceivedData::with_session(data, from_link, session_id, original_client)
    }

    /// `action` is what `msg` calls for, and `after` is the state afterwards.
    pub open spec fn handles(
        &self,
        after: UnorderedAggTask,
        msg: UnorderedControlMsg,
        draw: WeightedDraw,
        now: Instant,
        action: ControlAction,
    ) -> bool {
        match msg {
            UnorderedControlMsg::AddLink { link_id, remote_addr } => {
                &&& action is Done
                &&& after.same_rest(*self)
                &&& vec_map::value(after.links(), link_id) matches Some(state) && state.link_id
                    == link_id && state.remote_addr@ == remote_addr@ && state.last_seen == now
                    && state.fresh() && after.links() == vec_map::with(
                    self.links(),
                    link_id,
                    state,
                )
            },
            UnorderedControlMsg::RemoveLink { link_id } => {
                &&& action is Done
                &&& after.same_rest(*self)
                &&& after.links() == vec_map::without(self.links(), link_id)
            },
            UnorderedControlMsg::UpdateLinkHealth { link_id, is_healthy } => {
                &&& action is Done
                &&& after.same_rest(*self)
                &&& after.links() == (match vec_map::value(self.links(), link_id) {
                    Some(state) => replaced(
                        self.links(),
                        link_id,
                        UnorderedLinkState { is_healthy, ..state },
                    ),
                    None => self.links(),
                })
            },
            UnorderedControlMsg::GetStats => {
                &&& action matches ControlAction::Stats(stats) && summarizes(stats, self.links(), self.balancer().metrics())
                &&& after.same_rest(*self)
                &&& after.links() == self.links()
            },
            UnorderedControlMsg::SendData { data } => {
                action matches ControlAction::Send(step) && self.sends_with_session(
                    after,
                    data@,
                    hashing::session_of(data@),
                    None,
                    draw,
                    now,
                    step,
                )
            },
            UnorderedControlMsg::SendDataViaLink { data, link_id } => {
                action matches ControlAction::Send(step) && self.sends_via_link(
                    after,
                    data@,
                    link_id,
                    now,
                    step,
                )
            },
            UnorderedControlMsg::SendDataWithSession { data, session_id, original_client } => {
                action matches ControlAction::Send(step) && self.sends_with_session(
                    after,
                    data@,
                    session_id,
                    original_client,
                    draw,
                    now,
                    step,
                )
            },
            UnorderedControlMsg::ReceiveData { data, link_id } => {
                &&& action matches ControlAction::Deliver(r) && r.data@ == data@ && r.link_id
                    == link_id && r.session_id == 0 && r.original_client is None
                &&& after.same_rest(*self)
                &&& after.links() == self.links_after_receiving(link_id, data@.len(), now)
            },
            UnorderedControlMsg::ReceiveDataWithSession {
                data,
                link_id,
                session_id,
                original_client,
            } => {
                &&& action matches ControlAction::Deliver(r) && r.data@ == data@ && r.link_id
                    == link_id && r.session_id == session_id && r.original_client == original_client
                &&& after.same_rest(*self)
                &&& after.links() == self.links_after_receiving(link_id, data@.len(), now)
            },
        }
    }

    /// Handles a control message.
    pub fn handle(&mut self, msg: UnorderedControlMsg, draw: &WeightedDraw, now: Instant) -> (action:
        ControlAction)
        requires
            old(self).wf(),
            msg is GetStats ==> total_sent(old(self).links()) <= u64::MAX && total_received(
                old(self).links(),
            ) <= u64::MAX,
        ensures
            final(self).wf(),
            old(self).handles(*final(self), msg, *draw, now, action),
    {
        match msg {
            UnorderedControlMsg::AddLink { link_id, remote_addr } => {
                self.add_link(link_id, remote_addr, now);
                ControlAction::Done
            },
            UnorderedControlMsg::RemoveLink { link_id } => {
                let _ = self.remove_link(link_id);
                ControlAction::Done
            },
            UnorderedControlMsg::UpdateLinkHealth { link_id, is_healthy } => {
                self.update_link_health(link_id, is_healthy);
                ControlAction::Done
            },
            UnorderedControlMsg::GetStats => ControlAction::Stats(self.get_stats()),
            UnorderedControlMsg::SendData { data } => ControlAction::Send(
                self.send_data(data.as_slice(), draw, now),
            ),
            UnorderedControlMsg::SendDataViaLink { data, link_id } => ControlAction::Send(
                self.send_data_via_link(data.as_slice(), link_id, now),
            ),
            UnorderedControlMsg::SendDataWithSession { data, session_id, original_client } => {
                ControlAction::Send(
                    self.send_data_with_session(
                        data.as_slice(),
                        session_id,
                        original_client,
                        draw,
                        now,
                    ),
                )
            },
            UnorderedControlMsg::ReceiveData { data, link_id } => ControlAction::Deliver(
                self.handle_incoming_data(data, link_id, now),
            ),
            UnorderedControlMsg::ReceiveDataWithSession {
                data,
                link_id,
                session_id,
                original_client,
            } => {
                ControlAction::Deliver(
                    self.handle_incoming_data_with_session(
                        data,
                        link_id,
                        session_id,
                        original_client,
                        now,
                    ),
                )
            },
        }
    }

    /// Returns the identifiers of the healthy links, in the order in which a
    /// weighted draw goes through them.
    pub fn healthy_links(&self) -> (ids: Vec<LinkId>)
        ensures
            ids@ == load_balancer::healthy_ids(self.links()),
    {
        load_balancer::healthy_links(&self.links)
    }

    /// Returns what the weight of a link is based on.
    pub fn bandwidth_base(&self, link_id: LinkId) -> (base: BandwidthBase)
        ensures
            base == self.balancer().base(link_id),
    {
        self.load_balancer.bandwidth_base(link_id)
    }

    /// Returns loss rate and send speed of a link within its window, which
    /// together with its bandwidth make up its weight.
    pub fn weight_inputs(&mut self, link_id: LinkId, now: Instant) -> (r: Option<
        (LossRate, SendSpeed),
    >)
        requires
            old(self).wf(),
        ensures
            final(self).wf(),
            final(self).same_rest(*old(self)),
            match vec_map::value(old(self).links(), link_id) {
                None => r is None && final(self).links() == old(self).links(),
                Some(state) => {
                    &&& vec_map::value(final(self).links(), link_id) matches Some(seen)
                    &&& state.observed(seen, now)
                    &&& final(self).links() == replaced(old(self).links(), link_id, seen)
                    &&& r matches Some((loss, speed))
                    &&& link_state::loss_in(seen.windowed_stats.records(), loss)
                    &&& link_state::speed_in(seen.windowed_stats.records(), now, speed)
                },
            },
    {
        let i: usize = self.links.position(&link_id);
        if i >= self.links.len() {
            return None;
        }
        let ghost links = self.links@;
        let state = self.links.value_at_mut(i);
        let ghost records = state.windowed_stats.records();
        let ghost window = state.windowed_stats.window();
        let loss = state.windowed_packet_loss_rate(now);
        let speed = state.windowed_send_speed(now);
        proof {
            link_state::live_idempotent(records, now, window);
            vec_map::place_is_first(links, link_id);
            vec_map::with_stores(links, link_id, self.links@[i as int].1);
        }
        Some((loss, speed))
    }

    /// Stores what was measured of a link.
    pub fn update_link_metrics(
        &mut self,
        link_id: LinkId,
        rtt: Duration,
        send: Measure,
        recv: Measure,
        now: Instant,
    )
        requires
            old(self).wf(),
        ensures
            final(self).wf(),
            final(self).cfg() == old(self).cfg(),
            final(self).links() == old(self).links(),
            final(self).balancer().strategy() == old(self).balancer().strategy(),
            final(self).balancer().role() == old(self).balancer().role(),
            final(self).balancer().index() == old(self).balancer().index(),
            final(self).balancer().metrics() == vec_map::with(
                old(self).balancer().metrics(),
                link_id,
                (LinkMetrics {
                    avg_rtt: rtt.millis() as u128,
                    send_bandwidth: send,
                    recv_bandwidth: recv,
                    last_update: now,
                }),
            ),
    {
        self.load_balancer.update_link_metrics(link_id, rtt, send, recv, now);
    }
}

/// Replacing the state of a link changes the total of sent bytes by what the
/// link's own count changes.
pub proof fn total_sent_replaced(
    links: Seq<(LinkId, UnorderedLinkState)>,
    link_id: LinkId,
    state: UnorderedLinkState,
)
    requires
        vec_map::has(links, link_id),
    ensures
        total_sent(replaced(links, link_id, state)) == total_sent(links) - links[vec_map::place(
            links,
            link_id,
        )].1.bytes_sent + state.bytes_sent,
        total_received(replaced(links, link_id, state)) == total_received(links)
            - links[vec_map::place(links, link_id)].1.bytes_received + state.bytes_received,
{
    vec_map::place_is_first(links, link_id);
    total_updated(links, vec_map::place(links, link_id), (link_id, state));
}

proof fn total_updated(
    links: Seq<(LinkId, UnorderedLinkState)>,
    i: int,
    entry: (LinkId, UnorderedLinkState),
)
    requires
        0 <= i < links.len(),
    ensures
        total_sent(links.update(i, entry)) == total_sent(links) - links[i].1.bytes_sent
            + entry.1.bytes_sent,
        total_received(links.update(i, entry)) == total_received(links) - links[i].1.bytes_received
            + entry.1.bytes_received,
    decreases links.len(),
{
    let after = links.update(i, entry);
    if i == links.len() - 1 {
        assert(after.drop_last() =~= links.drop_last());
    } else {
        total_updated(links.drop_last(), i, entry);
        assert(after.drop_last() =~= links.drop_last().update(i, entry));
    }
}

/// What is framed for a link can be read back from the frame.
pub proof fn frame_round_trip(
    data: Seq<u8>,
    link_id: LinkId,
    session_id: u64,
    original_client: Option<SocketAddr>,
)
    requires
        data.len() <= 0xFFFF_FFFF,
        msg_laws::client_fits(original_client),
    ensures
        unordered_msg::read_msg(frame_bytes(data, link_id, session_id, original_client)) == Ok::<
            (MsgModel, Seq<u8>),
            MsgError,
        >((MsgModel::Data { link_id, session_id, original_client, payload: data }, Seq::empty())),
{
    let msg = MsgModel::Data { link_id, session_id, original_client, payload: data };
    msg_laws::msg_round_trip(msg, Seq::empty());
    let frame = frame_bytes(data, link_id, session_id, original_client);
    assert(frame + Seq::empty() =~= frame);
}

} // verus!
