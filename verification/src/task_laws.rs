//! What holds of the aggregation over several calls.
use crate::addr::SocketAddr;
use crate::link_state::UnorderedLinkState;
use crate::load_balancer;
use crate::load_balancer::{LinkMetrics, WeightedDraw};
use crate::time::Instant;
use crate::unordered_msg::LinkId;
use crate::unordered_task;
use crate::unordered_task::{SendStep, UnorderedAggError, UnorderedAggTask, UnorderedLinkStats};
use crate::vec_map;
use vstd::prelude::*;

verus! {

/// Data is only ever transmitted over a link that is there and healthy.
pub proof fn transmits_over_healthy_links(
    task: UnorderedAggTask,
    after: UnorderedAggTask,
    data: Seq<u8>,
    session_id: u64,
    original_client: Option<SocketAddr>,
    draw: WeightedDraw,
    now: Instant,
    step: SendStep,
    link_id: LinkId,
    frame: Vec<u8>,
)
    requires
        task.sends_with_session(after, data, session_id, original_client, draw, now, step)
            || task.sends_via_link(after, data, link_id, now, step),
        step == (SendStep::Transmit { link_id, frame }),
    ensures
        vec_map::value(task.links(), link_id) matches Some(state) && state.is_healthy,
        after.links() == task.links(),
{
}

/// As long as a healthy link is there, data that fits a frame is transmitted.
pub proof fn healthy_link_suffices(
    task: UnorderedAggTask,
    after: UnorderedAggTask,
    data: Seq<u8>,
    session_id: u64,
    original_client: Option<SocketAddr>,
    draw: WeightedDraw,
    now: Instant,
    step: SendStep,
    healthy: int,
)
    requires
        task.wf(),
        task.sends_with_session(after, data, session_id, original_client, draw, now, step),
        data.len() <= 0xFFFF_FFFF,
        0 <= healthy < task.links().len(),
        task.links()[healthy].1.is_healthy,
    ensures
        step is Transmit,
{
    let links = task.links();
    let id = choose|id: LinkId|
        #![trigger vec_map::value(links, id)]
        {
            &&& task.balancer().would_choose(links, draw, Some(id))
            &&& vec_map::value(links, id) matches Some(state)
            &&& !state.is_healthy ==> step is Refused
            &&& state.is_healthy ==> step is Transmit
        };
    load_balancer::choice_is_healthy(
        task.balancer().strategy(),
        task.balancer().index(),
        task.balancer().metrics(),
        links,
        draw,
        Some(id),
    );
    let j = choose|j: int|
        0 <= j < links.len() && (#[trigger] links[j]).0 == id && ((exists|k: int|
            0 <= k < links.len() && (#[trigger] links[k]).1.is_healthy) ==> links[j].1.is_healthy);
    assert(links[healthy].1.is_healthy);
    vec_map::place_found(links, id, j);
}

/// A link that was removed is not used any more: asking for it by name is
/// refused, and it is never chosen.
pub proof fn removed_link_is_not_used(
    task: UnorderedAggTask,
    removed: UnorderedAggTask,
    after: UnorderedAggTask,
    link_id: LinkId,
    data: Seq<u8>,
    session_id: u64,
    original_client: Option<SocketAddr>,
    draw: WeightedDraw,
    now: Instant,
    step: SendStep,
)
    requires
        task.wf(),
        removed.links() == vec_map::without(task.links(), link_id),
    ensures
        removed.sends_via_link(after, data, link_id, now, step) ==> step == SendStep::Refused(
            UnorderedAggError::LinkNotFound { link_id },
        ),
        removed.sends_with_session(after, data, session_id, original_client, draw, now, step) ==> !(
        step matches SendStep::Transmit { link_id: used, .. } && used == link_id),
{
    vec_map::without_removes(task.links(), link_id);
}

/// A link that was marked as unhealthy carries no data: asking for it by name is
/// refused, and nothing is transmitted over it.
pub proof fn unhealthy_link_carries_nothing(
    task: UnorderedAggTask,
    marked: UnorderedAggTask,
    after: UnorderedAggTask,
    link_id: LinkId,
    state: UnorderedLinkState,
    data: Seq<u8>,
    session_id: u64,
    original_client: Option<SocketAddr>,
    draw: WeightedDraw,
    now: Instant,
    step: SendStep,
)
    requires
        task.wf(),
        vec_map::value(task.links(), link_id) == Some(state),
        marked.links() == unordered_task::replaced(
            task.links(),
            link_id,
            (UnorderedLinkState { is_healthy: false, ..state }),
        ),
    ensures
        marked.sends_via_link(after, data, link_id, now, step) ==> step == SendStep::Refused(
            UnorderedAggError::LinkUnhealthy { link_id },
        ),
        marked.sends_with_session(after, data, session_id, original_client, draw, now, step) ==> !(
        step matches SendStep::Transmit { link_id: used, .. } && used == link_id),
{
    vec_map::with_stores(
        task.links(),
        link_id,
        (UnorderedLinkState { is_healthy: false, ..state }),
    );
}

/// Bytes that were sent over a link show up in the total, as long as the counter
/// of the link does not wrap around.
pub proof fn sent_bytes_are_counted(
    links: Seq<(LinkId, UnorderedLinkState)>,
    link_id: LinkId,
    state: UnorderedLinkState,
    sent: UnorderedLinkState,
    now: Instant,
    bytes: nat,
)
    requires
        vec_map::value(links, link_id) == Some(state),
        state.sent(sent, now, bytes),
        state.bytes_sent + bytes <= u64::MAX,
    ensures
        unordered_task::total_sent(unordered_task::replaced(links, link_id, sent))
            == unordered_task::total_sent(links) + bytes,
        unordered_task::total_received(unordered_task::replaced(links, link_id, sent))
            == unordered_task::total_received(links),
{
    unordered_task::total_sent_replaced(links, link_id, sent);
}

/// The statistics give the time of the last data that went over a link or came from it.
/// A failed send is no communication.
pub proof fn statistics_tell_the_last_communication(
    state: UnorderedLinkState,
    after: UnorderedLinkState,
    now: Instant,
    bytes: nat,
    measured: Option<LinkMetrics>,
    stats: UnorderedLinkStats,
)
    requires
        unordered_task::reports(stats, after, measured),
    ensures
        state.sent(after, now, bytes) ==> stats.last_seen == now,
        after == state.received(now, bytes) ==> stats.last_seen == now,
        state.send_failed(after, now) ==> stats.last_seen == state.last_seen,
{
}

/// How many of the outcomes were successes, or failures.
pub open spec fn count(outcomes: Seq<bool>, success: bool) -> nat
    decreases outcomes.len(),
{
    if outcomes.len() == 0 {
        0
    } else {
        count(outcomes.drop_last(), success) + if outcomes.last() == success {
            1nat
        } else {
            0nat
        }
    }
}

/// `states` is what a link went through while sends succeeded or failed, one after the
/// other.
pub open spec fn sending(
    states: Seq<UnorderedLinkState>,
    outcomes: Seq<bool>,
    times: Seq<Instant>,
    bytes: Seq<nat>,
) -> bool {
    &&& states.len() == outcomes.len() + 1
    &&& times.len() == outcomes.len()
    &&& bytes.len() == outcomes.len()
    &&& forall|i: int|
        #![trigger outcomes[i]]
        0 <= i < outcomes.len() ==> if outcomes[i] {
            states[i].sent(states[i + 1], times[i], bytes[i])
        } else {
            states[i].send_failed(states[i + 1], times[i])
        }
}

/// The statistics of a link tell how many sends succeeded and how many failed since it
/// was new, whatever their order, and so does its loss rate.
pub proof fn sends_are_counted(
    states: Seq<UnorderedLinkState>,
    outcomes: Seq<bool>,
    times: Seq<Instant>,
    bytes: Seq<nat>,
    measured: Option<LinkMetrics>,
    stats: UnorderedLinkStats,
)
    requires
        sending(states, outcomes, times, bytes),
        states[0].fresh(),
        outcomes.len() <= u64::MAX,
        unordered_task::reports(stats, states.last(), measured),
    ensures
        stats.successful_sends == count(outcomes, true),
        stats.failed_sends == count(outcomes, false),
        stats.packet_loss_rate.successful == count(outcomes, true),
        stats.packet_loss_rate.failed == count(outcomes, false),
{
    assert(outcomes.take(outcomes.len() as int) =~= outcomes);
    counted_so_far(states, outcomes, times, bytes, outcomes.len() as int);
}

proof fn counted_so_far(
    states: Seq<UnorderedLinkState>,
    outcomes: Seq<bool>,
    times: Seq<Instant>,
    bytes: Seq<nat>,
    n: int,
)
    requires
        sending(states, outcomes, times, bytes),
        states[0].fresh(),
        outcomes.len() <= u64::MAX,
        0 <= n <= outcomes.len(),
    ensures
        states[n].successful_sends == count(outcomes.take(n), true),
        states[n].failed_sends == count(outcomes.take(n), false),
        count(outcomes.take(n), true) + count(outcomes.take(n), false) == n,
    decreases n,
{
    if n > 0 {
        let k = n - 1;
        counted_so_far(states, outcomes, times, bytes, k);
        assert(outcomes.take(n).drop_last() =~= outcomes.take(k));
        assert(outcomes.take(n).last() == outcomes[k]);
        assert(if outcomes[k] {
            states[k].sent(states[n], times[k], bytes[k])
        } else {
            states[k].send_failed(states[n], times[k])
        });
    }
}

} // verus!
