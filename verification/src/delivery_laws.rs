//! What callers of the aggregation can rely on: which data goes where, and what
//! comes out at the other end.
use crate::addr::SocketAddr;
use crate::link_state;
use crate::link_state::{Entry, LossRate, SendSpeed};
use crate::load_balancer::{BandwidthBase, Measure, WeightedDraw};
use crate::msg_laws;
use crate::time::{Duration, Instant};
use crate::unordered_cfg::{NodeRole, UnorderedCfg};
use crate::unordered_msg::{LinkId, UnorderedLinkMsg};
use crate::unordered_task;
use crate::unordered_task::{
    ControlAction, ReceivedData, SendRefusal, SendResult, SendStep, UnorderedAggError,
    UnorderedAggStats, UnorderedAggTask, UnorderedControlMsg,
};
use crate::vec_map;
use crate::window_laws;
use crate::wire::{Cursor, MsgError};
use vstd::prelude::*;

verus! {

/// A client address of which nothing is lost on the wire.
pub open spec fn plain_client(client: Option<SocketAddr>) -> bool {
    client matches Some(SocketAddr::V6(a)) ==> a.flowinfo == 0 && a.scope_id == 0
}

/// Received data is delivered as it came, from any link, with exactly the session and
/// the original client that came with it.
pub proof fn session_data_is_delivered(
    task: &mut UnorderedAggTask,
    data: Vec<u8>,
    link_id: LinkId,
    session_id: u64,
    original_client: Option<SocketAddr>,
    draw: &WeightedDraw,
    now: Instant,
    action: ControlAction,
)
    requires
        call_ensures(
            UnorderedAggTask::handle,
            (
                task,
                UnorderedControlMsg::ReceiveDataWithSession {
                    data,
                    link_id,
                    session_id,
                    original_client,
                },
                draw,
                now,
            ),
            action,
        ),
    ensures
        action matches ControlAction::Deliver(r) && r.data@ == data@ && r.link_id == link_id
            && r.session_id == session_id && r.original_client == original_client,
{
}

/// Data without session information is delivered as it came, without a session and
/// without an original client.
pub proof fn plain_data_is_delivered(
    task: &mut UnorderedAggTask,
    data: Vec<u8>,
    link_id: LinkId,
    draw: &WeightedDraw,
    now: Instant,
    action: ControlAction,
)
    requires
        call_ensures(
            UnorderedAggTask::handle,
            (task, UnorderedControlMsg::ReceiveData { data, link_id }, draw, now),
            action,
        ),
    ensures
        action matches ControlAction::Deliver(r) && r.data@ == data@ && r.link_id == link_id
            && r.session_id == 0 && r.original_client is None,
{
}

/// From end to end: what one side frames with a session, once it is read and handed in
/// on the other side, is delivered there with the same data, session and client, and
/// with the link that was chosen.
pub proof fn sent_data_arrives(
    sender: &mut UnorderedAggTask,
    data: &[u8],
    session_id: u64,
    original_client: Option<SocketAddr>,
    draw: &WeightedDraw,
    sent_at: Instant,
    link_id: LinkId,
    frame: Vec<u8>,
    reader: &mut Cursor,
    read: Result<UnorderedLinkMsg, MsgError>,
    receiver: &mut UnorderedAggTask,
    msg: UnorderedControlMsg,
    other_draw: &WeightedDraw,
    received_at: Instant,
    action: ControlAction,
)
    requires
        call_ensures(
            UnorderedAggTask::send_data_with_session,
            (sender, data, session_id, original_client, draw, sent_at),
            (SendStep::Transmit { link_id, frame }),
        ),
        plain_client(original_client),
        old(reader).rest() == frame@,
        call_ensures(UnorderedLinkMsg::read, (reader,), read),
        read matches Ok(UnorderedLinkMsg::Data { link_id: l, session_id: s, original_client: c, payload })
            ==> msg == (UnorderedControlMsg::ReceiveDataWithSession {
            data: payload,
            link_id: l,
            session_id: s,
            original_client: c,
        }),
        call_ensures(
            UnorderedAggTask::handle,
            (receiver, msg, other_draw, received_at),
            action,
        ),
    ensures
        read matches Ok(UnorderedLinkMsg::Data { .. }),
        final(reader).rest().len() == 0,
        action matches ControlAction::Deliver(r) && r.data@ == data@ && r.link_id == link_id
            && r.session_id == session_id && r.original_client == original_client,
{
    data_frame_reads(frame, link_id, session_id, original_client, data@, reader, read);
}

proof fn data_frame_reads(
    frame: Vec<u8>,
    link_id: LinkId,
    session_id: u64,
    original_client: Option<SocketAddr>,
    data: Seq<u8>,
    reader: &mut Cursor,
    read: Result<UnorderedLinkMsg, MsgError>,
)
    requires
        frame@ == unordered_task::frame_bytes(data, link_id, session_id, original_client),
        data.len() <= 0xFFFF_FFFF,
        plain_client(original_client),
        old(reader).rest() == frame@,
        call_ensures(UnorderedLinkMsg::read, (reader,), read),
    ensures
        read matches Ok(UnorderedLinkMsg::Data { link_id: l, session_id: s, original_client: c, payload })
            && l == link_id && s == session_id && c == original_client && payload@ == data,
        final(reader).rest().len() == 0,
{
    let model = crate::unordered_msg::MsgModel::Data {
        link_id,
        session_id,
        original_client,
        payload: data,
    };
    msg_laws::msg_round_trip(model, Seq::empty());
    assert(frame@ + Seq::<u8>::empty() =~= frame@);
}

/// The same through control messages: a request to send with a session transmits over
/// one link a frame that reads back as the data, the session and the client.
pub proof fn requested_session_data_is_framed(
    task: &mut UnorderedAggTask,
    data: Vec<u8>,
    session_id: u64,
    original_client: Option<SocketAddr>,
    draw: &WeightedDraw,
    now: Instant,
    action: ControlAction,
    reader: &mut Cursor,
    read: Result<UnorderedLinkMsg, MsgError>,
)
    requires
        call_ensures(
            UnorderedAggTask::handle,
            (
                task,
                UnorderedControlMsg::SendDataWithSession { data, session_id, original_client },
                draw,
                now,
            ),
            action,
        ),
        plain_client(original_client),
        action matches ControlAction::Send(SendStep::Transmit { frame, .. }) ==> old(reader).rest()
            == frame@,
        call_ensures(UnorderedLinkMsg::read, (reader,), read),
    ensures
        action is Send,
        action matches ControlAction::Send(SendStep::Transmit { link_id, .. }) ==> (read matches Ok(
            UnorderedLinkMsg::Data { link_id: l, session_id: s, original_client: c, payload },
        ) && l == link_id && s == session_id && c == original_client && payload@ == data@),
{
    if let ControlAction::Send(SendStep::Transmit { link_id, frame }) = action {
        data_frame_reads(frame, link_id, session_id, original_client, data@, reader, read);
    }
}

/// Data without a session, sent over the chosen link, over a given link, or by a control
/// message for either, is framed whole: the frame reads back as a data message with
/// this payload and without an original client.
pub proof fn plain_data_is_framed(
    task: &mut UnorderedAggTask,
    data: Vec<u8>,
    bytes: &[u8],
    via: LinkId,
    draw: &WeightedDraw,
    now: Instant,
    step: SendStep,
    link_id: LinkId,
    frame: Vec<u8>,
    reader: &mut Cursor,
    read: Result<UnorderedLinkMsg, MsgError>,
)
    requires
        bytes@ == data@,
        step == (SendStep::Transmit { link_id, frame }),
        call_ensures(UnorderedAggTask::send_data, (task, bytes, draw, now), step) || call_ensures(
            UnorderedAggTask::send_data_via_link,
            (task, bytes, via, now),
            step,
        ) || call_ensures(
            UnorderedAggTask::handle,
            (task, UnorderedControlMsg::SendData { data }, draw, now),
            ControlAction::Send(step),
        ) || call_ensures(
            UnorderedAggTask::handle,
            (task, UnorderedControlMsg::SendDataViaLink { data, link_id: via }, draw, now),
            ControlAction::Send(step),
        ),
        old(reader).rest() == frame@,
        call_ensures(UnorderedLinkMsg::read, (reader,), read),
    ensures
        read matches Ok(UnorderedLinkMsg::Data { original_client: c, payload, .. }) && c is None
            && payload@ == data@,
        vec_map::value(old(task).links(), link_id) matches Some(state) && state.is_healthy,
{
    let session = crate::hashing::session_of(data@);
    if frame@ == unordered_task::frame_bytes(data@, link_id, session, None) {
        data_frame_reads(frame, link_id, session, None, data@, reader, read);
    } else {
        data_frame_reads(frame, LinkId(0), session, None, data@, reader, read);
    }
}

/// Data sent over a given link goes over that link, if it is there and healthy and the
/// data fits a frame; else it is refused, and the error names the link.
pub proof fn given_link_is_used(
    task: &mut UnorderedAggTask,
    data: &[u8],
    via: LinkId,
    now: Instant,
    step: SendStep,
)
    requires
        call_ensures(UnorderedAggTask::send_data_via_link, (task, data, via, now), step),
        data@.len() <= 0xFFFF_FFFF,
    ensures
        match vec_map::value(old(task).links(), via) {
            None => step == SendStep::Refused(UnorderedAggError::LinkNotFound { link_id: via }),
            Some(state) => if state.is_healthy {
                step matches SendStep::Transmit { link_id, .. } && link_id == via
            } else {
                step == SendStep::Refused(UnorderedAggError::LinkUnhealthy { link_id: via })
            },
        },
        final(task).links() == old(task).links(),
{
}

/// Without any link nothing is sent, and the error says so; nothing changes.
pub proof fn nothing_is_sent_without_links(
    task: &mut UnorderedAggTask,
    data: &[u8],
    session_id: u64,
    original_client: Option<SocketAddr>,
    draw: &WeightedDraw,
    now: Instant,
    step: SendStep,
    refusal: Result<(LinkId, Vec<u8>), SendRefusal>,
)
    requires
        old(task).links().len() == 0,
    ensures
        call_ensures(
            UnorderedAggTask::send_data_with_session,
            (task, data, session_id, original_client, draw, now),
            step,
        ) ==> step == SendStep::Refused(UnorderedAggError::NoLinksAvailable)
            && final(task).links().len() == 0,
        call_ensures(UnorderedAggTask::send_data, (task, data, draw, now), step) ==> step
            == SendStep::Refused(UnorderedAggError::NoLinksAvailable) && final(task).links().len()
            == 0,
        call_ensures(UnorderedAggTask::send, (task, data, draw), refusal) ==> refusal == Err::<
            (LinkId, Vec<u8>),
            SendRefusal,
        >(SendRefusal::NoLinks),
{
}

/// With a healthy link, data that fits a frame is transmitted over a healthy link.
pub proof fn healthy_links_carry_data(
    task: &mut UnorderedAggTask,
    data: &[u8],
    session_id: u64,
    original_client: Option<SocketAddr>,
    draw: &WeightedDraw,
    now: Instant,
    step: SendStep,
    healthy: LinkId,
)
    requires
        old(task).wf(),
        call_ensures(
            UnorderedAggTask::send_data_with_session,
            (task, data, session_id, original_client, draw, now),
            step,
        ) || call_ensures(UnorderedAggTask::send_data, (task, data, draw, now), step),
        data@.len() <= 0xFFFF_FFFF,
        vec_map::value(old(task).links(), healthy) matches Some(state) && state.is_healthy,
    ensures
        step matches SendStep::Transmit { link_id, .. } && (vec_map::value(
            old(task).links(),
            link_id,
        ) matches Some(state) && state.is_healthy),
        final(task).links() == old(task).links(),
{
    let links = old(task).links();
    vec_map::place_is_first(links, healthy);
    let p = vec_map::place(links, healthy);
    if old(task).sends_with_session(
        *final(task),
        data@,
        session_id,
        original_client,
        *draw,
        now,
        step,
    ) {
        crate::task_laws::healthy_link_suffices(
            *old(task),
            *final(task),
            data@,
            session_id,
            original_client,
            *draw,
            now,
            step,
            p,
        );
    } else {
        crate::task_laws::healthy_link_suffices(
            *old(task),
            *final(task),
            data@,
            crate::hashing::session_of(data@),
            None,
            *draw,
            now,
            step,
            p,
        );
    }
}

/// A link that is added, directly or by a control message, is there, healthy and without
/// any traffic; every other link is as it was.
pub proof fn added_link_is_there(
    task: &mut UnorderedAggTask,
    link_id: LinkId,
    remote_addr: String,
    draw: &WeightedDraw,
    now: Instant,
    other: LinkId,
)
    requires
        old(task).wf(),
        call_ensures(UnorderedAggTask::add_link, (task, link_id, remote_addr, now), ())
            || call_ensures(
            UnorderedAggTask::handle,
            (task, UnorderedControlMsg::AddLink { link_id, remote_addr }, draw, now),
            ControlAction::Done,
        ),
    ensures
        vec_map::value(final(task).links(), link_id) matches Some(state) && state.is_healthy
            && state.remote_addr@ == remote_addr@ && state.last_seen == now && state.bytes_sent == 0
            && state.bytes_received == 0 && state.successful_sends == 0 && state.failed_sends == 0,
        other != link_id ==> vec_map::value(final(task).links(), other) == vec_map::value(
            old(task).links(),
            other,
        ),
{
    let state = vec_map::value(final(task).links(), link_id)->0;
    vec_map::with_stores(old(task).links(), link_id, state);
}

/// A link that is removed, directly or by a control message, is gone; every other link is
/// as it was.
pub proof fn removed_link_is_gone(
    task: &mut UnorderedAggTask,
    link_id: LinkId,
    removed: bool,
    draw: &WeightedDraw,
    now: Instant,
    other: LinkId,
)
    requires
        old(task).wf(),
        call_ensures(UnorderedAggTask::remove_link, (task, link_id), removed) || call_ensures(
            UnorderedAggTask::handle,
            (task, UnorderedControlMsg::RemoveLink { link_id }, draw, now),
            ControlAction::Done,
        ),
    ensures
        vec_map::value(final(task).links(), link_id) is None,
        other != link_id ==> vec_map::value(final(task).links(), other) == vec_map::value(
            old(task).links(),
            other,
        ),
        call_ensures(UnorderedAggTask::remove_link, (task, link_id), removed) ==> removed == (
        vec_map::value(old(task).links(), link_id) is Some),
{
    vec_map::without_removes(old(task).links(), link_id);
}

/// A health update, direct or by a control message, sets the health of that link and
/// changes nothing else of it, nor any other link.
pub proof fn health_is_updated(
    task: &mut UnorderedAggTask,
    link_id: LinkId,
    is_healthy: bool,
    draw: &WeightedDraw,
    now: Instant,
    other: LinkId,
)
    requires
        old(task).wf(),
        call_ensures(UnorderedAggTask::update_link_health, (task, link_id, is_healthy), ())
            || call_ensures(
            UnorderedAggTask::handle,
            (task, UnorderedControlMsg::UpdateLinkHealth { link_id, is_healthy }, draw, now),
            ControlAction::Done,
        ),
    ensures
        match (
            vec_map::value(old(task).links(), link_id),
            vec_map::value(final(task).links(), link_id),
        ) {
            (Some(before), Some(after)) => {
                &&& after.is_healthy == is_healthy
                &&& after.link_id == before.link_id
                &&& after.remote_addr == before.remote_addr
                &&& after.last_seen == before.last_seen
                &&& after.bytes_sent == before.bytes_sent
                &&& after.bytes_received == before.bytes_received
                &&& after.successful_sends == before.successful_sends
                &&& after.failed_sends == before.failed_sends
                &&& after.windowed_stats == before.windowed_stats
            },
            (None, None) => true,
            _ => false,
        },
        other != link_id ==> vec_map::value(final(task).links(), other) == vec_map::value(
            old(task).links(),
            other,
        ),
{
    let links = old(task).links();
    vec_map::place_is_first(links, link_id);
    if let Some(before) = vec_map::value(links, link_id) {
        vec_map::with_stores(
            links,
            link_id,
            (crate::link_state::UnorderedLinkState { is_healthy, ..before }),
        );
    }
}

/// How a transmission ended is passed on to whoever asked for it, and counts for the link
/// that it went over, and for no other: as one success with its bytes, or as one failure.
pub proof fn outcome_counts_for_its_link(
    task: &mut UnorderedAggTask,
    link_id: LinkId,
    outcome: Result<usize, String>,
    started: Instant,
    now: Instant,
    r: Result<SendResult, UnorderedAggError>,
    other: LinkId,
)
    requires
        old(task).wf(),
        call_ensures(
            UnorderedAggTask::complete_send,
            (task, link_id, outcome, started, now),
            r,
        ),
    ensures
        match outcome {
            Ok(bytes) => r matches Ok(result) && result.bytes_sent == bytes && result.link_id
                == link_id && (started.nanos <= now.nanos ==> result.duration.nanos == now.nanos
                - started.nanos),
            Err(error) => r matches Err(
                UnorderedAggError::NetworkError { link_id: Some(on), source },
            ) && on == link_id && source@ == error@,
        },
        (vec_map::value(old(task).links(), link_id) matches Some(before) && before.bytes_sent
            + 0xFFFF_FFFF_FFFF < u64::MAX && before.successful_sends < u64::MAX
            && before.failed_sends < u64::MAX) ==> (vec_map::value(
            final(task).links(),
            link_id,
        ) matches Some(after) && {
            let before = vec_map::value(old(task).links(), link_id)->0;
            &&& after.is_healthy == before.is_healthy
            &&& after.bytes_received == before.bytes_received
            &&& match outcome {
                Ok(bytes) => bytes < 0xFFFF_FFFF_FFFF ==> after.bytes_sent == before.bytes_sent
                    + bytes && after.successful_sends == before.successful_sends + 1
                    && after.failed_sends == before.failed_sends && after.last_seen == now,
                Err(_) => after.bytes_sent == before.bytes_sent && after.successful_sends
                    == before.successful_sends && after.failed_sends == before.failed_sends + 1
                    && after.last_seen == before.last_seen,
            }
        }),
        other != link_id ==> vec_map::value(final(task).links(), other) == vec_map::value(
            old(task).links(),
            other,
        ),
{
    let links = old(task).links();
    vec_map::place_is_first(links, link_id);
    if vec_map::value(links, link_id) is Some {
        let after = vec_map::value(final(task).links(), link_id)->0;
        vec_map::with_stores(links, link_id, after);
    }
}

/// Received bytes count for the link that they came from, and for no other.
pub proof fn received_bytes_count_for_their_link(
    task: &mut UnorderedAggTask,
    data: Vec<u8>,
    link_id: LinkId,
    session_id: u64,
    original_client: Option<SocketAddr>,
    now: Instant,
    r: ReceivedData,
    other: LinkId,
)
    requires
        old(task).wf(),
        call_ensures(
            UnorderedAggTask::handle_incoming_data_with_session,
            (task, data, link_id, session_id, original_client, now),
            r,
        ) || call_ensures(
            UnorderedAggTask::handle_incoming_data,
            (task, data, link_id, now),
            r,
        ),
    ensures
        r.data@ == data@,
        r.link_id == link_id,
        match (
            vec_map::value(old(task).links(), link_id),
            vec_map::value(final(task).links(), link_id),
        ) {
            (Some(before), Some(after)) => {
                &&& before.bytes_received + data@.len() <= u64::MAX ==> after.bytes_received
                    == before.bytes_received + data@.len()
                &&& after.last_seen == now
                &&& after.bytes_sent == before.bytes_sent
                &&& after.successful_sends == before.successful_sends
                &&& after.failed_sends == before.failed_sends
                &&& after.is_healthy == before.is_healthy
            },
            (None, None) => true,
            _ => false,
        },
        other != link_id ==> vec_map::value(final(task).links(), other) == vec_map::value(
            old(task).links(),
            other,
        ),
{
    let links = old(task).links();
    vec_map::place_is_first(links, link_id);
    if let Some(before) = vec_map::value(links, link_id) {
        vec_map::with_stores(links, link_id, before.received(now, data@.len()));
    }
}

/// The statistics tell of each link, in the order of the links, its address, its health,
/// what it carried in both directions, how its sends ended, and what was last measured of
/// it.
pub proof fn statistics_are_true(task: UnorderedAggTask, stats: UnorderedAggStats, i: int)
    requires
        call_ensures(UnorderedAggTask::get_stats, (&task,), stats),
        0 <= i < task.links().len(),
    ensures
        stats.active_links == task.links().len(),
        stats.link_stats@.len() == task.links().len(),
        stats.link_stats@[i].0 == task.links()[i].0,
        ({
            let told = stats.link_stats@[i].1;
            let link = task.links()[i].1;
            &&& told.remote_addr@ == link.remote_addr@
            &&& told.is_healthy == link.is_healthy
            &&& told.bytes_sent == link.bytes_sent
            &&& told.bytes_received == link.bytes_received
            &&& told.last_seen == link.last_seen
            &&& told.successful_sends == link.successful_sends
            &&& told.failed_sends == link.failed_sends
            &&& told.packet_loss_rate.failed == link.failed_sends
            &&& told.packet_loss_rate.successful == link.successful_sends
            &&& match vec_map::value(task.balancer().metrics(), task.links()[i].0) {
                Some(m) => told.avg_rtt == m.avg_rtt && told.bandwidth == m.send_bandwidth,
                None => told.avg_rtt == 0 && told.bandwidth.rank == Some(0i64),
            }
        }),
{
}

/// The totals of the statistics are the sums over all links, and as many links are healthy
/// as there are healthy ones.
pub proof fn statistics_add_up(task: UnorderedAggTask, stats: UnorderedAggStats)
    requires
        call_ensures(UnorderedAggTask::get_stats, (&task,), stats),
    ensures
        stats.total_bytes_sent == task.links().fold_left(
            0int,
            |sum: int, link: (LinkId, crate::link_state::UnorderedLinkState)| sum
                + link.1.bytes_sent,
        ),
        stats.total_bytes_received == task.links().fold_left(
            0int,
            |sum: int, link: (LinkId, crate::link_state::UnorderedLinkState)| sum
                + link.1.bytes_received,
        ),
        stats.healthy_links == task.links().fold_left(
            0int,
            |sum: int, link: (LinkId, crate::link_state::UnorderedLinkState)| sum
                + if link.1.is_healthy {
                1int
            } else {
                0int
            },
        ),
{
    sums(task.links());
}

proof fn sums(links: Seq<(LinkId, crate::link_state::UnorderedLinkState)>)
    ensures
        unordered_task::total_sent(links) == links.fold_left(
            0int,
            |sum: int, link: (LinkId, crate::link_state::UnorderedLinkState)| sum
                + link.1.bytes_sent,
        ),
        unordered_task::total_received(links) == links.fold_left(
            0int,
            |sum: int, link: (LinkId, crate::link_state::UnorderedLinkState)| sum
                + link.1.bytes_received,
        ),
        crate::load_balancer::healthy_ids(links).len() == links.fold_left(
            0int,
            |sum: int, link: (LinkId, crate::link_state::UnorderedLinkState)| sum
                + if link.1.is_healthy {
                1int
            } else {
                0int
            },
        ),
    decreases links.len(),
{
    reveal(Seq::fold_left);
    if links.len() > 0 {
        sums(links.drop_last());
    }
}

/// Where no link is healthy, data is refused with the first link named, and nothing counts;
/// sending without regard to health goes over that link.
pub proof fn unhealthy_links_are_refused(
    task: &mut UnorderedAggTask,
    data: &[u8],
    session_id: u64,
    original_client: Option<SocketAddr>,
    draw: &WeightedDraw,
    now: Instant,
    step: SendStep,
)
    requires
        old(task).wf(),
        old(task).links().len() > 0,
        forall|i: int| 0 <= i < old(task).links().len() ==> !(#[trigger] old(task).links()[i]).1.is_healthy,
        call_ensures(
            UnorderedAggTask::send_data_with_session,
            (task, data, session_id, original_client, draw, now),
            step,
        ),
    ensures
        step matches SendStep::Refused(UnorderedAggError::LinkUnhealthy { link_id }) && link_id
            == old(task).links()[0].0,
        final(task).links() == old(task).links(),
{
    let links = old(task).links();
    none_is_healthy(links);
    vec_map::place_found(links, links[0].0, 0);
}

proof fn none_is_healthy(links: Seq<(LinkId, crate::link_state::UnorderedLinkState)>)
    requires
        forall|i: int| 0 <= i < links.len() ==> !(#[trigger] links[i]).1.is_healthy,
    ensures
        crate::load_balancer::healthy_ids(links).len() == 0,
    decreases links.len(),
{
    if links.len() > 0 {
        let rest = links.drop_last();
        assert forall|i: int| 0 <= i < rest.len() implies !(#[trigger] rest[i]).1.is_healthy by {
            assert(rest[i] == links[i]);
        }
        none_is_healthy(rest);
        assert(links[links.len() - 1] == links.last());
    }
}

/// Data that is sent without regard to health goes over the link that the balancer chooses
/// for the same draw; its frame reads back as the data, without a link or a client.
pub proof fn unchecked_data_is_framed(
    task: &mut UnorderedAggTask,
    data: &[u8],
    draw: &WeightedDraw,
    link_id: LinkId,
    frame: Vec<u8>,
    reader: &mut Cursor,
    read: Result<UnorderedLinkMsg, MsgError>,
    id: u64,
)
    requires
        call_ensures(
            UnorderedAggTask::send,
            (task, data, draw),
            Ok::<(LinkId, Vec<u8>), SendRefusal>((link_id, frame)),
        ),
        old(reader).rest() == frame@,
        call_ensures(UnorderedLinkMsg::read, (reader,), read),
        call_ensures(crate::hashing::data_session_id, (data,), id),
    ensures
        read matches Ok(UnorderedLinkMsg::Data { link_id: l, session_id, original_client, payload })
            && l.0 == 0 && session_id == id && original_client is None && payload@ == data@,
        vec_map::value(old(task).links(), link_id) is Some,
        final(task).links() == old(task).links(),
{
    data_frame_reads(
        frame,
        LinkId(0),
        crate::hashing::session_of(data@),
        None,
        data@,
        reader,
        read,
    );
    let links = old(task).links();
    let ids = crate::load_balancer::healthy_ids(links);
    vec_map::place_is_first(links, link_id);
    if ids.len() == 0 {
        vec_map::place_found(links, links[0].0, 0);
    } else {
        let b = old(task).balancer();
        let i = choose|i: int|
            0 <= i < ids.len() && Some(link_id) == Some(ids[i])
                && #[trigger] crate::load_balancer::picks(
                b.strategy(),
                b.index(),
                b.metrics(),
                ids,
                *draw,
                i,
            );
        crate::load_balancer::healthy_ids_are_healthy(links, i);
        let j = choose|j: int|
            0 <= j < links.len() && (#[trigger] links[j]).0 == ids[i] && links[j].1.is_healthy;
        assert(links[j].0 == link_id);
    }
}

/// A frame that is made with a session reads back as it was made; one that is made without
/// has the session of its data.
pub proof fn frames_are_read_back(
    data: &[u8],
    link_id: LinkId,
    session_id: u64,
    original_client: Option<SocketAddr>,
    framed: Result<Vec<u8>, MsgError>,
    plain: Result<Vec<u8>, MsgError>,
    id: u64,
    r1: &mut Cursor,
    r2: &mut Cursor,
    read1: Result<UnorderedLinkMsg, MsgError>,
    read2: Result<UnorderedLinkMsg, MsgError>,
)
    requires
        data@.len() <= 0xFFFF_FFFF,
        plain_client(original_client),
        call_ensures(
            unordered_task::frame_with_session,
            (data, link_id, session_id, original_client),
            framed,
        ),
        call_ensures(unordered_task::frame_plain, (data,), plain),
        call_ensures(crate::hashing::data_session_id, (data,), id),
        framed matches Ok(f) ==> old(r1).rest() == f@,
        plain matches Ok(f) ==> old(r2).rest() == f@,
        call_ensures(UnorderedLinkMsg::read, (r1,), read1),
        call_ensures(UnorderedLinkMsg::read, (r2,), read2),
    ensures
        read1 matches Ok(UnorderedLinkMsg::Data { link_id: l, session_id: s, original_client: c, payload })
            && l == link_id && s == session_id && c == original_client && payload@ == data@,
        read2 matches Ok(UnorderedLinkMsg::Data { session_id: s, original_client: c, payload, .. })
            && s == id && c is None && payload@ == data@,
{
    data_frame_reads(framed->Ok_0, link_id, session_id, original_client, data@, r1, read1);
    data_frame_reads(
        plain->Ok_0,
        LinkId(0),
        crate::hashing::session_of(data@),
        None,
        data@,
        r2,
        read2,
    );
}

/// A send that is recorded counts as one that succeeded, for its link only.
pub proof fn recorded_sends_count(
    task: &mut UnorderedAggTask,
    link_id: LinkId,
    bytes: usize,
    now: Instant,
    other: LinkId,
)
    requires
        old(task).wf(),
        call_ensures(UnorderedAggTask::record_sent, (task, link_id, bytes, now), ()),
    ensures
        match (
            vec_map::value(old(task).links(), link_id),
            vec_map::value(final(task).links(), link_id),
        ) {
            (Some(before), Some(after)) => {
                &&& after.bytes_sent == (before.bytes_sent + bytes) % 0x1_0000_0000_0000_0000
                &&& after.successful_sends == (before.successful_sends + 1)
                    % 0x1_0000_0000_0000_0000
                &&& after.failed_sends == before.failed_sends
                &&& after.bytes_received == before.bytes_received
                &&& after.last_seen == now
                &&& after.is_healthy == before.is_healthy
            },
            (None, None) => true,
            _ => false,
        },
        other != link_id ==> vec_map::value(final(task).links(), other) == vec_map::value(
            old(task).links(),
            other,
        ),
{
    let links = old(task).links();
    vec_map::place_is_first(links, link_id);
    if vec_map::value(links, link_id) is Some {
        vec_map::with_stores(links, link_id, vec_map::value(final(task).links(), link_id)->0);
    }
}

/// What the weight of a link is made from follows its sends: one that succeeds adds one
/// success and its bytes, one that fails adds one failure. A link that is not there has no
/// weight.
pub proof fn weights_follow_sends(
    t1: &mut UnorderedAggTask,
    t2: &mut UnorderedAggTask,
    t3: &mut UnorderedAggTask,
    link_id: LinkId,
    outcome: Result<usize, String>,
    started: Instant,
    now: Instant,
    done: Result<SendResult, UnorderedAggError>,
    before: Option<(LossRate, SendSpeed)>,
    after: Option<(LossRate, SendSpeed)>,
)
    requires
        old(t1).wf(),
        call_ensures(UnorderedAggTask::weight_inputs, (t1, link_id, now), before),
        *old(t2) == *final(t1),
        call_ensures(
            UnorderedAggTask::complete_send,
            (t2, link_id, outcome, started, now),
            done,
        ),
        *old(t3) == *final(t2),
        call_ensures(UnorderedAggTask::weight_inputs, (t3, link_id, now), after),
    ensures
        before is Some <==> vec_map::value(old(t1).links(), link_id) is Some,
        match (before, after) {
            (Some((loss, speed)), Some((later, faster))) => match outcome {
                Ok(bytes) => {
                    &&& later.successful == loss.successful + 1
                    &&& later.failed == loss.failed
                    &&& faster.bytes == speed.bytes + bytes
                },
                Err(_) => {
                    &&& later.successful == loss.successful
                    &&& later.failed == loss.failed + 1
                    &&& faster.bytes == speed.bytes
                },
            },
            (None, None) => true,
            _ => false,
        },
{
    if let Some(s0) = vec_map::value(old(t1).links(), link_id) {
        let w = s0.windowed_stats.window();
        let s1 = vec_map::value(final(t1).links(), link_id)->0;
        let l1 = s1.windowed_stats.records();
        link_state::live_idempotent(s0.windowed_stats.records(), now, w);
        let e: Entry = match outcome {
            Ok(bytes) => (now, 1, 0, bytes as u64),
            Err(_) => (now, 0, 1, 0),
        };
        window_laws::fresh_record_stays(l1, e, now, w);
        window_laws::one_more(l1, e);
        link_state::live_idempotent(l1.push(e), now, w);
    }
}

/// What was measured of a link is told in the statistics: the round-trip time in whole
/// milliseconds and the bandwidth of sending. Its weight is then based on the direction that
/// counts for the role in the configuration. Links themselves do not change.
pub proof fn measurements_are_told(
    config: UnorderedCfg,
    created: UnorderedAggTask,
    t1: &mut UnorderedAggTask,
    t2: &mut UnorderedAggTask,
    link_id: LinkId,
    name: String,
    rtt: Duration,
    send: Measure,
    recv: Measure,
    now: Instant,
    stats: UnorderedAggStats,
    unmeasured: BandwidthBase,
    base: BandwidthBase,
)
    requires
        call_ensures(UnorderedAggTask::new, (config,), created),
        *old(t1) == created,
        call_ensures(UnorderedAggTask::add_link, (t1, link_id, name, now), ()),
        call_ensures(UnorderedAggTask::bandwidth_base, (&*final(t1), link_id), unmeasured),
        *old(t2) == *final(t1),
        call_ensures(
            UnorderedAggTask::update_link_metrics,
            (t2, link_id, rtt, send, recv, now),
            (),
        ),
        call_ensures(UnorderedAggTask::get_stats, (&*final(t2),), stats),
        call_ensures(UnorderedAggTask::bandwidth_base, (&*final(t2), link_id), base),
    ensures
        unmeasured is Unmeasured,
        base == (match config.node_role {
            NodeRole::Client => BandwidthBase::Receive,
            NodeRole::Server => BandwidthBase::Send,
            NodeRole::Balanced => BandwidthBase::Mean,
        }),
        created.links().len() == 0,
        created.balancer().strategy() == config.load_balance,
        final(t2).balancer().strategy() == config.load_balance,
        stats.active_links == 1,
        stats.link_stats@.len() == 1,
        ({
            let told = stats.link_stats@[0];
            &&& told.0 == link_id
            &&& told.1.bandwidth == send
            &&& told.1.avg_rtt * 1_000_000 <= rtt.nanos < (told.1.avg_rtt + 1) * 1_000_000
        }),
{
    let none = Seq::<(LinkId, crate::load_balancer::LinkMetrics)>::empty();
    let measured = crate::load_balancer::LinkMetrics {
        avg_rtt: rtt.millis() as u128,
        send_bandwidth: send,
        recv_bandwidth: recv,
        last_update: now,
    };
    assert(created.balancer().metrics() =~= none);
    vec_map::with_stores(none, link_id, measured);
    vec_map::place_is_first(none, link_id);
    let state = vec_map::value(final(t1).links(), link_id)->0;
    vec_map::place_is_first(created.links(), link_id);
    assert(final(t1).links() == created.links().push((link_id, state)));
}

/// Statistics can be asked for exactly as long as the bytes of all links, sent and received,
/// each add up to a number that fits.
pub proof fn totals_are_checked(task: UnorderedAggTask, fit: bool)
    requires
        call_ensures(UnorderedAggTask::totals_fit, (&task,), fit),
    ensures
        fit <==> task.links().fold_left(
            0int,
            |sum: int, link: (LinkId, crate::link_state::UnorderedLinkState)| sum
                + link.1.bytes_sent,
        ) <= u64::MAX && task.links().fold_left(
            0int,
            |sum: int, link: (LinkId, crate::link_state::UnorderedLinkState)| sum
                + link.1.bytes_received,
        ) <= u64::MAX,
{
    sums(task.links());
}

/// The healthy links of the task are listed in the order in which links were added.
pub proof fn healthy_links_of_the_task(task: UnorderedAggTask, ids: Vec<LinkId>)
    requires
        call_ensures(UnorderedAggTask::healthy_links, (&task,), ids),
    ensures
        ids@ == crate::balancer_laws::healthy(task.links()),
{
    crate::balancer_laws::healthy_alike(task.links());
}

/// A transmission that is told to have succeeded was no retry, and took the time between its
/// start and its end; if the clock went back, none.
pub proof fn results_tell_the_duration(
    task: &mut UnorderedAggTask,
    link_id: LinkId,
    bytes: usize,
    started: Instant,
    now: Instant,
    r: Result<SendResult, UnorderedAggError>,
)
    requires
        call_ensures(
            UnorderedAggTask::complete_send,
            (task, link_id, Ok::<usize, String>(bytes), started, now),
            r,
        ),
    ensures
        r matches Ok(result) && !result.was_retry && result.duration.nanos == (if started.nanos
            <= now.nanos {
            now.nanos - started.nanos
        } else {
            0
        }),
{
}

/// Data that is handed to the application says what came with it, and without session
/// information says nothing.
pub proof fn received_data_keeps_its_parts(
    data: Vec<u8>,
    link_id: LinkId,
    session_id: u64,
    original_client: Option<SocketAddr>,
    plain: ReceivedData,
    full: ReceivedData,
)
    requires
        call_ensures(ReceivedData::new, (data, link_id), plain),
        call_ensures(
            ReceivedData::with_session,
            (data, link_id, session_id, original_client),
            full,
        ),
    ensures
        plain.data@ == data@ && full.data@ == data@,
        plain.link_id == link_id && full.link_id == link_id,
        plain.session_id == 0 && plain.original_client is None,
        full.session_id == session_id && full.original_client == original_client,
{
}

/// Asking for what the weight of a link is made of changes nothing that was counted for it,
/// nor its name, health or last communication.
pub proof fn asking_for_weights_counts_nothing(
    task: &mut UnorderedAggTask,
    link_id: LinkId,
    now: Instant,
    r: Option<(LossRate, SendSpeed)>,
)
    requires
        old(task).wf(),
        call_ensures(UnorderedAggTask::weight_inputs, (task, link_id, now), r),
    ensures
        match (
            vec_map::value(old(task).links(), link_id),
            vec_map::value(final(task).links(), link_id),
        ) {
            (Some(before), Some(after)) => {
                &&& r is Some
                &&& after.link_id == before.link_id
                &&& after.remote_addr@ == before.remote_addr@
                &&& after.is_healthy == before.is_healthy
                &&& after.last_seen == before.last_seen
                &&& after.bytes_sent == before.bytes_sent
                &&& after.bytes_received == before.bytes_received
                &&& after.successful_sends == before.successful_sends
                &&& after.failed_sends == before.failed_sends
            },
            (None, None) => r is None,
            _ => false,
        },
{
}

} // verus!
