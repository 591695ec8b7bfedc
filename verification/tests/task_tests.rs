use aggligator::addr::{IpAddr, Ipv4Addr, SocketAddr};
use aggligator::hashing::data_session_id;
use aggligator::link_state::{LossRate, SendSpeed, UnorderedLinkState, WindowedStats};
use aggligator::load_balancer::{healthy_links, BandwidthBase, Measure, UnorderedLoadBalancer, WeightedDraw};
use aggligator::time::{Duration, Instant};
use aggligator::unordered_cfg::{LoadBalanceStrategy, NodeRole, UnorderedCfg};
use aggligator::unordered_msg::{LinkId, UnorderedLinkMsg};
use aggligator::unordered_task::{
    frame_plain, frame_with_session, ControlAction, ReceivedData, SendRefusal, SendStep, UnorderedAggError,
    UnorderedAggTask, UnorderedControlMsg,
};
use aggligator::vec_map::VecMap;
use aggligator::wire::{Cursor, MsgError};

fn at(secs: u64) -> Instant {
    Instant { nanos: secs * 1_000_000_000 }
}

fn rank(x: f64) -> Measure {
    let rank = if x.is_nan() {
        None
    } else if x < 0.0 {
        Some(-((-x).to_bits() as i64))
    } else {
        Some(x.abs().to_bits() as i64)
    };
    Measure { rank }
}

fn ms(millis: u64) -> Duration {
    Duration::from_millis(millis)
}

fn no_draw() -> WeightedDraw {
    WeightedDraw { no_weight: true, used_up: Vec::new() }
}

fn links(healthy: &[bool]) -> VecMap<LinkId, UnorderedLinkState> {
    let mut map = VecMap::new();
    for (i, &h) in healthy.iter().enumerate() {
        let id = LinkId(i as u128 + 1);
        let mut state = UnorderedLinkState::new(id, format!("peer{}", i + 1), at(0));
        state.is_healthy = h;
        map.insert(id, state);
    }
    map
}

fn task(strategy: LoadBalanceStrategy, n: u128) -> UnorderedAggTask {
    let mut cfg = UnorderedCfg::default();
    cfg.load_balance = strategy;
    let mut task = UnorderedAggTask::new(cfg);
    for i in 1..=n {
        task.add_link(LinkId(i), format!("peer{}", i), at(0));
    }
    task
}

fn link_of(step: SendStep) -> u128 {
    match step {
        SendStep::Transmit { link_id, .. } => link_id.0,
        SendStep::Refused(e) => panic!("{:?}", e),
    }
}

#[test]
fn window_drops_old_records() {
    let mut stats = WindowedStats::new(Duration::from_secs(60));
    stats.add_record(at(0), 1, 0, 100);
    stats.add_record(at(30), 0, 1, 0);
    assert_eq!(stats.windowed_packet_loss_rate(at(60)), LossRate { failed: 1, successful: 1 });
    assert_eq!(
        stats.windowed_send_speed(at(60)),
        SendSpeed { bytes: 100, elapsed: Duration::from_secs(60) }
    );
    assert_eq!(stats.windowed_packet_loss_rate(at(61)), LossRate { failed: 1, successful: 0 });
    let (loss, speed, n) = stats.get_debug_info(at(61));
    assert_eq!(loss, LossRate { failed: 1, successful: 0 });
    assert_eq!(speed, SendSpeed { bytes: 0, elapsed: Duration::from_secs(31) });
    assert_eq!(n, 1);
    assert_eq!(stats.windowed_send_speed(at(1000)), SendSpeed { bytes: 0, elapsed: Duration { nanos: 0 } });
}

#[test]
fn link_counters() {
    let mut state = UnorderedLinkState::new(LinkId(1), "peer".to_string(), at(5));
    assert!(state.is_healthy);
    assert_eq!(state.last_seen, at(5));
    state.record_sent(at(6), 10);
    state.record_sent(at(7), 5);
    state.record_send_failure(at(8));
    assert_eq!(state.last_seen, at(7));
    state.record_received(at(9), 7);
    assert_eq!(state.last_seen, at(9));
    assert_eq!((state.bytes_sent, state.bytes_received), (15, 7));
    assert_eq!((state.successful_sends, state.failed_sends), (2, 1));
    assert_eq!(state.packet_loss_rate(), LossRate { failed: 1, successful: 2 });
    assert_eq!(state.windowed_packet_loss_rate(at(8)), LossRate { failed: 1, successful: 2 });
    assert_eq!(
        state.windowed_send_speed(at(8)),
        SendSpeed { bytes: 15, elapsed: Duration::from_secs(2) }
    );
    state.bytes_sent = u64::MAX;
    state.record_sent(at(9), 1);
    assert_eq!(state.bytes_sent, 0);
}

#[test]
fn round_robin_takes_healthy_links_in_turn() {
    let links = links(&[true, false, true, true]);
    assert_eq!(healthy_links(&links), vec![LinkId(1), LinkId(3), LinkId(4)]);
    let mut b = UnorderedLoadBalancer::new(LoadBalanceStrategy::PacketRoundRobin, NodeRole::Balanced);
    let picks: Vec<u128> = (0..6).map(|_| b.select_link(&links, &no_draw()).unwrap().0).collect();
    assert_eq!(picks, vec![1, 3, 4, 1, 3, 4]);
}

#[test]
fn without_healthy_links_any_link_is_used() {
    let mut b = UnorderedLoadBalancer::new(LoadBalanceStrategy::FastestFirst, NodeRole::Balanced);
    assert_eq!(b.select_link(&links(&[false, false]), &no_draw()), Some(LinkId(1)));
    assert_eq!(b.select_link(&links(&[]), &no_draw()), None);
}

#[test]
fn widest_link_is_chosen() {
    let links = links(&[true, true, true]);
    let mut b = UnorderedLoadBalancer::new(LoadBalanceStrategy::WeightedByBandwidth, NodeRole::Balanced);
    assert_eq!(b.select_link(&links, &no_draw()), Some(LinkId(1)));
    b.update_link_metrics(LinkId(2), ms(10), rank(-1.0), rank(5.0), at(1));
    assert_eq!(b.select_link(&links, &no_draw()), Some(LinkId(1)));
    b.update_link_metrics(LinkId(3), ms(10), rank(100.5), rank(5.0), at(1));
    assert_eq!(b.select_link(&links, &no_draw()), Some(LinkId(3)));
    b.update_link_metrics(LinkId(2), ms(10), rank(100.5), rank(5.0), at(1));
    assert_eq!(b.select_link(&links, &no_draw()), Some(LinkId(2)));
    b.update_link_metrics(LinkId(2), ms(10), rank(f64::NAN), rank(5.0), at(1));
    assert_eq!(b.select_link(&links, &no_draw()), Some(LinkId(3)));
}

#[test]
fn fastest_link_is_chosen() {
    let links = links(&[true, true, true]);
    let mut b = UnorderedLoadBalancer::new(LoadBalanceStrategy::FastestFirst, NodeRole::Balanced);
    assert_eq!(b.select_link(&links, &no_draw()), Some(LinkId(1)));
    b.update_link_metrics_simple(LinkId(2), ms(30), rank(1.0), at(1));
    assert_eq!(b.select_link(&links, &no_draw()), Some(LinkId(2)));
    b.update_link_metrics_simple(LinkId(3), ms(0), rank(1.0), at(1));
    assert_eq!(b.select_link_with_session(&links, &no_draw(), 99), Some(LinkId(3)));
    b.update_link_metrics_simple(LinkId(2), Duration { nanos: 999_999 }, rank(1.0), at(1));
    assert_eq!(b.link_metrics(LinkId(2)).unwrap().avg_rtt, 0);
    assert_eq!(b.select_link(&links, &no_draw()), Some(LinkId(2)));
    b.update_link_metrics_simple(LinkId(2), Duration { nanos: 1_999_999 }, rank(1.0), at(1));
    assert_eq!(b.link_metrics(LinkId(2)).unwrap().avg_rtt, 1);
    assert_eq!(b.select_link(&links, &no_draw()), Some(LinkId(3)));
}

#[test]
fn weighted_draw_decides() {
    let links = links(&[true, true, true]);
    for strategy in [LoadBalanceStrategy::WeightedByPacketLoss, LoadBalanceStrategy::DynamicAdaptive] {
        let mut b = UnorderedLoadBalancer::new(strategy, NodeRole::Client);
        assert_eq!(b.select_link(&links, &no_draw()), Some(LinkId(1)));
        let draw = WeightedDraw { no_weight: false, used_up: vec![false, true, true] };
        assert_eq!(b.select_link(&links, &draw), Some(LinkId(2)));
        let draw = WeightedDraw { no_weight: false, used_up: vec![false, false, false] };
        assert_eq!(b.select_link(&links, &draw), Some(LinkId(3)));
    }
}

#[test]
fn weights_follow_the_role() {
    for (role, base) in [
        (NodeRole::Client, BandwidthBase::Receive),
        (NodeRole::Server, BandwidthBase::Send),
        (NodeRole::Balanced, BandwidthBase::Mean),
    ] {
        let mut b = UnorderedLoadBalancer::new(LoadBalanceStrategy::DynamicAdaptive, role);
        assert_eq!(b.bandwidth_base(LinkId(1)), BandwidthBase::Unmeasured);
        b.update_link_metrics_simple(LinkId(1), ms(1), rank(1.0), at(0));
        assert_eq!(b.bandwidth_base(LinkId(1)), base);
    }
}

#[test]
fn sending_without_links() {
    let mut task = task(LoadBalanceStrategy::PacketRoundRobin, 0);
    assert!(matches!(
        task.send_data(b"x", &no_draw(), at(1)),
        SendStep::Refused(UnorderedAggError::NoLinksAvailable)
    ));
    assert_eq!(task.send(b"x", &no_draw()), Err(SendRefusal::NoLinks));
    assert_eq!(SendRefusal::NoLinks.message(), "No links available");
}

#[test]
fn frames_carry_the_chosen_link() {
    let mut task = task(LoadBalanceStrategy::PacketRoundRobin, 2);
    let client = SocketAddr::new(IpAddr::V4(Ipv4Addr::new(1, 2, 3, 4)), 5);
    match task.send_data_with_session(b"abc", 77, Some(client), &no_draw(), at(1)) {
        SendStep::Transmit { link_id, frame } => {
            assert_eq!(link_id, LinkId(1));
            let msg = UnorderedLinkMsg::read(&mut Cursor::new(&frame)).unwrap();
            assert_eq!(
                msg,
                UnorderedLinkMsg::Data {
                    link_id: LinkId(1),
                    session_id: 77,
                    original_client: Some(client),
                    payload: b"abc".to_vec()
                }
            );
            assert_eq!(Ok(frame), frame_with_session(b"abc", LinkId(1), 77, Some(client)));
        }
        other => panic!("{:?}", other),
    }
    match task.send_data(b"abc", &no_draw(), at(1)) {
        SendStep::Transmit { link_id, frame } => {
            assert_eq!(link_id, LinkId(2));
            let id = data_session_id(b"abc");
            assert_eq!(Ok(frame), frame_with_session(b"abc", LinkId(2), id, None));
        }
        other => panic!("{:?}", other),
    }
}

#[test]
fn plain_frames_name_no_link() {
    let mut task = task(LoadBalanceStrategy::PacketRoundRobin, 1);
    let frame = frame_plain(b"q").unwrap();
    assert_eq!(frame, frame_with_session(b"q", LinkId(0), data_session_id(b"q"), None).unwrap());
    match task.send_data_via_link(b"q", LinkId(1), at(1)) {
        SendStep::Transmit { link_id, frame: f } => assert_eq!((link_id, f), (LinkId(1), frame.clone())),
        other => panic!("{:?}", other),
    }
    assert_eq!(task.send(b"q", &no_draw()), Ok((LinkId(1), frame)));
}

#[test]
fn unhealthy_links_are_refused() {
    let mut task = task(LoadBalanceStrategy::PacketRoundRobin, 2);
    task.update_link_health(LinkId(1), false);
    assert!(matches!(
        task.send_data_via_link(b"x", LinkId(1), at(1)),
        SendStep::Refused(UnorderedAggError::LinkUnhealthy { link_id: LinkId(1) })
    ));
    assert!(matches!(
        task.send_data_via_link(b"x", LinkId(9), at(1)),
        SendStep::Refused(UnorderedAggError::LinkNotFound { link_id: LinkId(9) })
    ));
    assert_eq!(link_of(task.send_data(b"x", &no_draw(), at(1))), 2);
    assert_eq!(link_of(task.send_data(b"x", &no_draw(), at(1))), 2);
    assert_eq!(task.healthy_links(), vec![LinkId(2)]);
    task.update_link_health(LinkId(2), false);
    assert!(matches!(
        task.send_data(b"x", &no_draw(), at(1)),
        SendStep::Refused(UnorderedAggError::LinkUnhealthy { link_id: LinkId(1) })
    ));
    assert!(task.send(b"x", &no_draw()).is_ok());
    assert!(task.remove_link(LinkId(1)));
    assert!(!task.remove_link(LinkId(1)));
    task.update_link_health(LinkId(2), true);
    assert_eq!(link_of(task.send_data(b"x", &no_draw(), at(1))), 2);
}

#[test]
fn outcomes_are_counted() {
    let mut task = task(LoadBalanceStrategy::PacketRoundRobin, 2);
    let result = task.complete_send(LinkId(2), Ok(10), at(1), at(4)).unwrap();
    assert_eq!((result.bytes_sent, result.link_id), (10, LinkId(2)));
    assert_eq!(result.duration, Duration::from_secs(3));
    assert!(!result.was_retry);
    let error = task.complete_send(LinkId(2), Err("broken".to_string()), at(1), at(4)).unwrap_err();
    assert_eq!(error.message("two"), "Network error on link two: broken");
    assert_eq!(error.source().map(|s| s.as_str()), Some("broken"));
    assert_eq!(
        task.weight_inputs(LinkId(2), at(5)),
        Some((
            LossRate { failed: 1, successful: 1 },
            SendSpeed { bytes: 10, elapsed: Duration::from_secs(1) }
        ))
    );
    assert_eq!(task.weight_inputs(LinkId(7), at(5)), None);
    assert_eq!(task.bandwidth_base(LinkId(2)), BandwidthBase::Unmeasured);
    task.update_link_metrics(LinkId(2), ms(1), rank(2.0), rank(3.0), at(5));
    assert_eq!(task.bandwidth_base(LinkId(2)), BandwidthBase::Mean);
    assert!(task.totals_fit());
    let stats = task.get_stats();
    assert_eq!((stats.active_links, stats.healthy_links), (2, 2));
    assert_eq!((stats.total_bytes_sent, stats.total_bytes_received), (10, 0));
    assert_eq!(stats.link_stats[1].0, LinkId(2));
    assert_eq!(stats.link_stats[1].1.bytes_sent, 10);
    assert_eq!(stats.link_stats[1].1.remote_addr, "peer2");
    assert_eq!((stats.link_stats[1].1.successful_sends, stats.link_stats[1].1.failed_sends), (1, 1));
    assert_eq!(stats.link_stats[1].1.packet_loss_rate, LossRate { failed: 1, successful: 1 });
    assert_eq!((stats.link_stats[1].1.avg_rtt, stats.link_stats[1].1.bandwidth), (1, rank(2.0)));
    assert_eq!((stats.link_stats[0].1.avg_rtt, stats.link_stats[0].1.bandwidth), (0, rank(0.0)));
    assert_eq!(stats.link_stats[0].1.packet_loss_rate, LossRate { failed: 0, successful: 0 });
    assert_eq!((stats.link_stats[0].1.last_seen, stats.link_stats[1].1.last_seen), (at(0), at(4)));
    let _ = task.complete_send(LinkId(2), Err("broken".to_string()), at(5), at(6));
    assert_eq!(task.get_stats().link_stats[1].1.last_seen, at(4));
}

#[test]
fn totals_that_do_not_fit() {
    let mut task = task(LoadBalanceStrategy::PacketRoundRobin, 2);
    task.record_sent(LinkId(1), usize::MAX, at(1));
    assert!(task.totals_fit());
    task.record_sent(LinkId(2), 1, at(1));
    assert!(!task.totals_fit());
}

#[test]
fn received_data_is_delivered() {
    let mut task = task(LoadBalanceStrategy::PacketRoundRobin, 1);
    let plain = task.handle_incoming_data(vec![1, 2, 3], LinkId(1), at(3));
    assert_eq!(plain, ReceivedData::new(vec![1, 2, 3], LinkId(1)));
    let client = SocketAddr::new(IpAddr::V4(Ipv4Addr::new(1, 2, 3, 4)), 5);
    let with = task.handle_incoming_data_with_session(vec![4], LinkId(8), 9, Some(client), at(4));
    assert_eq!(with, ReceivedData::with_session(vec![4], LinkId(8), 9, Some(client)));
    assert_eq!(task.get_stats().total_bytes_received, 3);
    assert_eq!(task.get_stats().link_stats[0].1.last_seen, at(3));
}

#[test]
fn control_messages() {
    let mut task = task(LoadBalanceStrategy::PacketRoundRobin, 0);
    let add = UnorderedControlMsg::AddLink { link_id: LinkId(4), remote_addr: "peer".to_string() };
    assert!(matches!(task.handle(add, &no_draw(), at(1)), ControlAction::Done));
    let send = UnorderedControlMsg::SendData { data: vec![1] };
    match task.handle(send, &no_draw(), at(1)) {
        ControlAction::Send(step) => assert_eq!(link_of(step), 4),
        other => panic!("{:?}", other),
    }
    let via = UnorderedControlMsg::SendDataViaLink { data: vec![1], link_id: LinkId(5) };
    assert!(matches!(
        task.handle(via, &no_draw(), at(1)),
        ControlAction::Send(SendStep::Refused(UnorderedAggError::LinkNotFound { .. }))
    ));
    let with = UnorderedControlMsg::SendDataWithSession { data: vec![1], session_id: 3, original_client: None };
    match task.handle(with, &no_draw(), at(1)) {
        ControlAction::Send(step) => assert_eq!(link_of(step), 4),
        other => panic!("{:?}", other),
    }
    let receive = UnorderedControlMsg::ReceiveData { data: vec![7, 7], link_id: LinkId(4) };
    match task.handle(receive, &no_draw(), at(1)) {
        ControlAction::Deliver(data) => assert_eq!(data, ReceivedData::new(vec![7, 7], LinkId(4))),
        other => panic!("{:?}", other),
    }
    let receive = UnorderedControlMsg::ReceiveDataWithSession {
        data: vec![7],
        link_id: LinkId(4),
        session_id: 1,
        original_client: None,
    };
    assert!(matches!(task.handle(receive, &no_draw(), at(1)), ControlAction::Deliver(_)));
    match task.handle(UnorderedControlMsg::GetStats, &no_draw(), at(1)) {
        ControlAction::Stats(stats) => assert_eq!(stats.total_bytes_received, 3),
        other => panic!("{:?}", other),
    }
    let health = UnorderedControlMsg::UpdateLinkHealth { link_id: LinkId(4), is_healthy: false };
    task.handle(health, &no_draw(), at(1));
    assert_eq!(task.get_stats().healthy_links, 0);
    task.handle(UnorderedControlMsg::RemoveLink { link_id: LinkId(4) }, &no_draw(), at(1));
    assert_eq!(task.get_stats().active_links, 0);
}

#[test]
fn aggregation_error_texts() {
    let text = |e: UnorderedAggError| e.message("L");
    assert_eq!(text(UnorderedAggError::NoLinksAvailable), "No links are available for sending data");
    assert_eq!(
        text(UnorderedAggError::NoHealthyLinks { total_links: 120 }),
        "No healthy links available out of 120 total links"
    );
    assert_eq!(text(UnorderedAggError::LinkNotFound { link_id: LinkId(1) }), "Link L not found");
    assert_eq!(text(UnorderedAggError::LinkUnhealthy { link_id: LinkId(1) }), "Link L is unhealthy");
    assert_eq!(
        text(UnorderedAggError::NetworkError { link_id: None, source: "s".to_string() }),
        "Network error: s"
    );
    assert_eq!(
        text(UnorderedAggError::from_send_error("gone")),
        "Control channel operation failed (channel closed or send error): sending control message: gone"
    );
    assert_eq!(
        text(UnorderedAggError::from_recv_error("gone")),
        "Operation 'waiting for oneshot response: gone' timed out or failed to receive response"
    );
    let internal = UnorderedAggError::Internal { context: "c".to_string(), source: Some("s".to_string()) };
    assert_eq!(internal.message("L"), "Internal error in c: s");
    assert_eq!(internal.source().map(|s| s.as_str()), Some("s"));
    let internal = UnorderedAggError::Internal { context: "c".to_string(), source: None };
    assert_eq!(internal.message("L"), "Internal error in c");
    assert!(internal.source().is_none());
    assert_eq!(SendRefusal::Invalid(MsgError::PayloadTooLong).message(), "payload too long");
}

#[test]
fn maps_keep_order_and_keys() {
    let mut map: VecMap<String, u32> = VecMap::new();
    map.insert("b".to_string(), 1);
    map.insert("a".to_string(), 2);
    map.insert("b".to_string(), 3);
    assert_eq!(map.len(), 2);
    assert_eq!(map.get(&"b".to_string()), Some(&3));
    assert_eq!(map.key_at(0), "b");
    assert_eq!(map.remove(&"b".to_string()), Some(3));
    assert_eq!(map.remove(&"b".to_string()), None);
    assert!(map.contains_key(&"a".to_string()) && !map.is_empty());
    *map.value_at_mut(0) = 9;
    assert_eq!(map.value_at(0), &9);
    assert_eq!(map.position(&"z".to_string()), 1);
}

#[test]
fn round_robin_gives_each_link_its_share() {
    let links = links(&[true, false, true, true, false]);
    let mut b = UnorderedLoadBalancer::new(LoadBalanceStrategy::PacketRoundRobin, NodeRole::Balanced);
    b.select_link(&links, &no_draw());
    let picks: Vec<u128> = (0..21).map(|_| b.select_link(&links, &no_draw()).unwrap().0).collect();
    let share = |id: u128| picks.iter().filter(|&&pick| pick == id).count();
    assert_eq!([share(1), share(2), share(3), share(4), share(5)], [7, 0, 7, 7, 0]);
    for run in picks.windows(3) {
        assert!(run[0] != run[1] && run[1] != run[2] && run[0] != run[2]);
    }
}
