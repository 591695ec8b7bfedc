use aggligator::addr::{IpAddr, Ipv4Addr, Ipv6Addr, SocketAddr};
use aggligator::agg_udp::aggregator::{AggregatorError, SimpleUdpAggregator, UdpConnection};
use aggligator::agg_udp::interfaces::{
    check_established, connection_key, connection_source, force_interfaces, get_usable_interfaces_for_targets, interface_can_reach_target,
    is_suitable_interface, is_virtual_interface, plan_connections, reachable_targets,
};
use aggligator::agg_udp::link_stats::{
    BandwidthLabel, ClosedWindow, LinkCondition, LinkStats, RANK_0_2, RANK_0_5, RANK_0_8, RANK_0_95, RANK_1,
};
use aggligator::agg_udp::proxy::{
    backend_label, bandwidth_text, client_label, client_strategy, link_line, parse_strategy, status_text, ClientStrategy,
    ServerCounters, UdpProxyClient, UdpProxyServer,
};
use aggligator::agg_udp::server::{Delivery, ServerAggregator, ServerError, ServerSocket};
use aggligator::agg_udp::sessions::{SessionTable, UdpSession};
use aggligator::agg_udp::shares::place_of;
use aggligator::kcp::util::NetworkInterface;
use aggligator::load_balancer::Measure;
use aggligator::time::{Duration, Instant};
use aggligator::unordered_cfg::LoadBalanceStrategy;

fn at(secs: u64) -> Instant {
    Instant { nanos: secs * 1_000_000_000 }
}

fn ip(a: u8, b: u8, c: u8, d: u8) -> IpAddr {
    IpAddr::V4(Ipv4Addr::new(a, b, c, d))
}

fn sock(a: u8, b: u8, c: u8, d: u8, port: u16) -> SocketAddr {
    SocketAddr::new(ip(a, b, c, d), port)
}

fn iface(name: &str, addr: Vec<IpAddr>) -> NetworkInterface {
    NetworkInterface { name: name.to_string(), addr }
}

fn rank(x: f64) -> Measure {
    Measure { rank: Some(x.to_bits() as i64) }
}

#[test]
fn ranks_are_those_of_doubles() {
    assert_eq!(RANK_0_2, 0.2f64.to_bits() as i64);
    assert_eq!(RANK_0_5, 0.5f64.to_bits() as i64);
    assert_eq!(RANK_0_8, 0.8f64.to_bits() as i64);
    assert_eq!(RANK_0_95, 0.95f64.to_bits() as i64);
    assert_eq!(RANK_1, 1.0f64.to_bits() as i64);
}

#[test]
fn virtual_interfaces() {
    for name in ["lo", "lo0", "docker0", "br-12", "veth1", "tun0", "tap3", "vmnet1", "vboxnet0"] {
        assert!(is_virtual_interface(name), "{}", name);
    }
    for name in ["eth0", "wlan0", "br0", "utun1", "wg0"] {
        assert!(!is_virtual_interface(name), "{}", name);
    }
}

#[test]
fn suitable_interfaces() {
    assert!(is_suitable_interface(&iface("eth0", vec![ip(10, 0, 0, 1)])));
    assert!(!is_suitable_interface(&iface("docker0", vec![ip(10, 0, 0, 1)])));
    assert!(!is_suitable_interface(&iface("eth0", vec![])));
    assert!(!is_suitable_interface(&iface("eth0", vec![ip(127, 0, 0, 1)])));
    let v6 = IpAddr::V6(Ipv6Addr::new(0x2001, 0, 0, 0, 0, 0, 0, 1));
    assert!(!is_suitable_interface(&iface("eth0", vec![v6])));
    assert!(is_suitable_interface(&iface("eth0", vec![v6, ip(127, 0, 0, 1)])));
}

#[test]
fn reaching_targets() {
    let public = sock(8, 8, 8, 8, 53);
    let private = sock(192, 168, 1, 1, 53);
    let own = vec![ip(10, 0, 0, 1)];
    assert!(interface_can_reach_target(&iface("eth0", own.clone()), public));
    assert!(interface_can_reach_target(&iface("my-mobile", own.clone()), public));
    assert!(!interface_can_reach_target(&iface("wg0", own.clone()), public));
    assert!(!interface_can_reach_target(&iface("en-vpn", own.clone()), public));
    assert!(interface_can_reach_target(&iface("en-vpn", own.clone()), private));
    assert!(interface_can_reach_target(&iface("wg0", own.clone()), private));
    assert!(!interface_can_reach_target(&iface("foo0", own.clone()), public));
    assert!(!interface_can_reach_target(&iface("eth0", vec![ip(127, 0, 0, 1)]), public));
    assert!(interface_can_reach_target(&iface("x", vec![ip(127, 0, 0, 1)]), sock(127, 0, 0, 1, 1)));
    let v6 = |a: u16| IpAddr::V6(Ipv6Addr::new(a, 0, 0, 0, 0, 0, 0, 1));
    assert!(!interface_can_reach_target(&iface("eth0", own), SocketAddr::new(v6(0x2001), 1)));
    assert!(interface_can_reach_target(&iface("foo0", vec![v6(0xfd00)]), SocketAddr::new(v6(0xfe80), 1)));
    assert!(!interface_can_reach_target(&iface("zt0", vec![v6(0xfd00)]), SocketAddr::new(v6(0xfe80), 1)));
}

#[test]
fn at_most_four_interfaces() {
    let all: Vec<NetworkInterface> =
        (0..6).map(|i| iface(&format!("eth{}", i), vec![ip(10, 0, 0, i + 1)])).collect();
    let targets = [sock(8, 8, 8, 8, 53)];
    assert_eq!(get_usable_interfaces_for_targets(&all, &targets), Ok(vec![0, 1, 2, 3]));
    assert_eq!(force_interfaces(&all).len(), 6);
    let mixed = vec![
        iface("lo", vec![ip(127, 0, 0, 1)]),
        iface("foo0", vec![ip(10, 0, 0, 1)]),
        iface("wlan0", vec![ip(10, 0, 0, 2)]),
    ];
    assert_eq!(get_usable_interfaces_for_targets(&mixed, &targets), Ok(vec![2]));
    assert_eq!(force_interfaces(&mixed), vec![1, 2]);
    assert_eq!(
        get_usable_interfaces_for_targets(&mixed, &[]),
        Err("No usable network interfaces found for targets".to_string())
    );
    let two = [sock(8, 8, 8, 8, 53), sock(10, 0, 0, 9, 1)];
    assert_eq!(reachable_targets(&mixed[1], &two), vec![two[1]]);
    assert_eq!(reachable_targets(&mixed[2], &two), two.to_vec());
}

#[test]
fn planned_connections() {
    let all = vec![
        iface("lo", vec![ip(127, 0, 0, 1)]),
        iface("foo0", vec![ip(10, 0, 0, 1)]),
        iface("wlan0", vec![ip(10, 0, 0, 2)]),
    ];
    let (public, private) = (sock(8, 8, 8, 8, 53), sock(10, 0, 0, 9, 1));
    let targets = [public, private];
    assert_eq!(plan_connections(&all, &targets, false), Ok(vec![(1, private), (2, public), (2, private)]));
    assert_eq!(
        plan_connections(&all, &targets, true),
        Ok(vec![(1, public), (1, private), (2, public), (2, private)])
    );
    assert_eq!(plan_connections(&all[..1], &targets, true), Ok(Vec::new()));
    assert_eq!(
        plan_connections(&all[..1], &targets, false),
        Err("No usable network interfaces found for targets".to_string())
    );
    assert_eq!(check_established(1, false), Ok(()));
    assert_eq!(check_established(0, false), Err("❌ No usable connections could be established"));
    assert_eq!(
        check_established(0, true),
        Err("❌ FORCE MODE: Even with force mode, no connections could be established")
    );
}

#[test]
fn connections_of_interfaces() {
    let eth = iface("eth0", vec![ip(0, 0, 0, 0), ip(10, 0, 0, 2)]);
    assert_eq!(connection_source(&eth, sock(8, 8, 8, 8, 1)), Ok(sock(10, 0, 0, 2, 0)));
    assert_eq!(
        connection_source(&eth, sock(127, 0, 0, 1, 1)),
        Err("No suitable IP on interface eth0".to_string())
    );
    assert_eq!(connection_key("eth0", "8.8.8.8:53"), "eth0_8.8.8.8:53");
}

#[test]
fn measurement_windows() {
    let mut stats = LinkStats::new(at(0));
    assert_eq!(stats.update_send_stats(at(2), 100), None);
    assert_eq!(stats.window_bytes, 100);
    assert_eq!(
        stats.update_send_stats(at(5), 50),
        Some(ClosedWindow { bytes: 150, elapsed: Duration::from_secs(5) })
    );
    assert_eq!((stats.window_bytes, stats.window_start, stats.last_update), (0, at(5), at(5)));
    assert_eq!((stats.packets_sent, stats.bytes_sent), (2, 150));
}

#[test]
fn round_trip_estimates() {
    let mut stats = LinkStats::new(at(0));
    stats.estimate_rtt(3);
    assert_eq!(stats.avg_rtt, Some(Duration::from_millis(23)));
    stats.set_rates(rank(0.95), rank(0.05));
    stats.estimate_rtt(10);
    assert_eq!(stats.avg_rtt, Some(Duration::from_millis(50)));
    stats.set_rates(rank(0.8), rank(0.2));
    stats.estimate_rtt(40);
    assert_eq!(stats.avg_rtt, Some(Duration::from_millis(120)));
    assert_eq!(stats.rtt_label(), "120ms");
    stats.record_send_failure();
    assert_eq!(stats.avg_rtt, Some(Duration::from_secs(1)));
    assert_eq!(LinkStats::new(at(0)).rtt_label(), "N/A");
}

#[test]
fn link_conditions() {
    let mut stats = LinkStats::new(at(0));
    assert_eq!(stats.link_condition(at(1)), LinkCondition::Ready);
    stats.update_send_stats(at(1), 1);
    assert_eq!(stats.link_condition(at(2)), LinkCondition::Active);
    stats.avg_rtt = Some(Duration::from_secs(2));
    assert_eq!(stats.link_condition(at(2)), LinkCondition::Slow);
    stats.set_rates(rank(0.4), rank(0.6));
    assert_eq!(stats.link_condition(at(2)), LinkCondition::Poor);
    assert_eq!(stats.link_condition(at(6)), LinkCondition::Dead);
    assert!(!stats.is_idle(at(31)) && stats.is_idle(at(32)));
    let words: Vec<&str> = [
        LinkCondition::Dead,
        LinkCondition::Poor,
        LinkCondition::Slow,
        LinkCondition::Active,
        LinkCondition::Ready,
    ]
    .iter()
    .map(|c| c.label())
    .collect();
    assert_eq!(words, vec!["DEAD", "POOR", "SLOW", "ACTIVE", "READY"]);
}

#[test]
fn bandwidth_labels() {
    let mut stats = LinkStats::new(at(0));
    stats.bandwidth_bps = 1024;
    assert_eq!(stats.bandwidth_label(), BandwidthLabel::Bytes(1024));
    assert_eq!(bandwidth_text(stats.bandwidth_label(), "?"), "1024 B/s");
    stats.bandwidth_bps = 5000;
    assert_eq!(bandwidth_text(stats.bandwidth_label(), "?"), "4 KB/s");
    stats.bandwidth_bps = 1048577;
    assert_eq!(stats.bandwidth_label(), BandwidthLabel::Mega(1048577));
    assert_eq!(bandwidth_text(stats.bandwidth_label(), "1.0"), "1.0 MB/s");
}

fn aggregator(strategy: LoadBalanceStrategy, n: u8) -> SimpleUdpAggregator {
    let mut a = SimpleUdpAggregator::new(strategy);
    for i in 1..=n {
        let connection = UdpConnection {
            interface_name: format!("eth{}", i),
            local_addr: sock(10, 0, 0, i, 1000),
            target_addr: sock(8, 8, 8, i, 53),
        };
        a.add_connection(format!("c{}", i), connection, at(0));
    }
    a
}

fn next(a: &mut SimpleUdpAggregator) -> String {
    a.select_connection().unwrap().key
}

#[test]
fn connections_in_turn() {
    for strategy in [
        LoadBalanceStrategy::PacketRoundRobin,
        LoadBalanceStrategy::WeightedByPacketLoss,
        LoadBalanceStrategy::DynamicAdaptive,
    ] {
        let mut a = aggregator(strategy, 3);
        assert_eq!(a.connection_count(), 3);
        let keys: Vec<String> = (0..4).map(|_| next(&mut a)).collect();
        assert_eq!(keys, vec!["c1", "c2", "c3", "c1"]);
    }
    let mut a = aggregator(LoadBalanceStrategy::PacketRoundRobin, 2);
    assert_eq!(a.select_connection().unwrap().target, sock(8, 8, 8, 1, 53));
}

#[test]
fn no_connections() {
    let mut a = aggregator(LoadBalanceStrategy::FastestFirst, 0);
    let e = a.select_connection().unwrap_err();
    assert!(matches!(e, AggregatorError::NoConnections));
    assert_eq!(e.message(), "No connections available");
    assert_eq!(AggregatorError::SendFailed("x".to_string()).message(), "Send failed: x");
}

#[test]
fn fastest_connection() {
    let mut a = aggregator(LoadBalanceStrategy::FastestFirst, 3);
    assert_eq!(next(&mut a), "c1");
    a.estimate_rtt(&"c2".to_string(), 0);
    assert_eq!(next(&mut a), "c2");
    a.set_rates(&"c2".to_string(), rank(0.2), rank(0.8));
    assert_eq!(next(&mut a), "c1");
    a.record_failure(&"c1".to_string(), 5, at(1));
    assert_eq!(next(&mut a), "c3");
}

#[test]
fn widest_connection() {
    let mut a = aggregator(LoadBalanceStrategy::WeightedByBandwidth, 3);
    assert_eq!(next(&mut a), "c3");
    a.set_bandwidth(&"c2".to_string(), 10);
    assert_eq!(next(&mut a), "c2");
    a.set_bandwidth(&"c3".to_string(), 10);
    assert_eq!(next(&mut a), "c2");
    a.set_bandwidth(&"c3".to_string(), 11);
    assert_eq!(next(&mut a), "c3");
    a.set_rates(&"c3".to_string(), rank(0.1), rank(0.9));
    assert_eq!(next(&mut a), "c2");
}

#[test]
fn sent_packets_are_counted() {
    let mut a = aggregator(LoadBalanceStrategy::PacketRoundRobin, 2);
    assert_eq!(a.record_success(&"c2".to_string(), 100, at(1)), None);
    let closed = a.record_success(&"c2".to_string(), 50, at(6));
    assert_eq!(closed, Some(ClosedWindow { bytes: 150, elapsed: Duration::from_secs(6) }));
    a.record_failure(&"c1".to_string(), 7, at(6));
    assert_eq!(a.record_success(&"zz".to_string(), 1, at(6)), None);
    assert_eq!(a.stats(), (3, 151));
    let (key, stats) = a.link_stats(0).unwrap();
    assert_eq!((key.as_str(), stats.bytes_sent, stats.avg_rtt), ("c1", 7, Some(Duration::from_secs(1))));
    assert_eq!(a.link_stats(1).unwrap().1.packets_sent, 2);
    assert!(a.link_stats(2).is_none());
}

#[test]
fn rate_limits() {
    let mut a = aggregator(LoadBalanceStrategy::PacketRoundRobin, 0);
    assert_eq!(a.send_interval_us(), 0);
    a.set_rate_limit(3000);
    assert_eq!(a.send_interval_us(), 333);
    a.set_rate_limit(0);
    assert_eq!(a.send_interval_us(), 0);
}

#[test]
fn proxy_sessions() {
    let mut table = SessionTable::new();
    assert!(table.touch(sock(1, 1, 1, 1, 1), None, at(0)));
    assert!(table.touch(sock(2, 2, 2, 2, 2), Some(3), at(10)));
    assert!(!table.touch(sock(1, 1, 1, 1, 1), None, at(20)));
    assert_eq!(table.clients(), vec![sock(1, 1, 1, 1, 1), sock(2, 2, 2, 2, 2)]);
    assert_eq!(table.cleanup(at(70), Duration::from_secs(60)), 0);
    assert_eq!(table.cleanup(at(71), Duration::from_secs(60)), 1);
    assert_eq!(table.clients(), vec![sock(1, 1, 1, 1, 1)]);
    assert_eq!(table.len(), 1);
    let mut session = UdpSession::new(sock(1, 1, 1, 1, 1), at(0));
    assert_eq!((session.sequence, session.server_socket), (0, None));
    session.update_activity(at(5));
    assert!(!session.is_expired(at(6), Duration::from_secs(1)) && session.is_expired(at(7), Duration::from_secs(1)));
}

#[test]
fn client_side() {
    let mut proxy = UdpProxyClient::new(client_strategy("fastest-first", true));
    assert!(proxy.on_packet(sock(1, 1, 1, 1, 1), 0, at(0)).is_err());
    proxy.aggregator = aggregator(LoadBalanceStrategy::PacketRoundRobin, 2);
    assert_eq!(proxy.on_packet(sock(1, 1, 1, 1, 1), 0, at(0)).unwrap().key, "c1");
    assert_eq!(proxy.on_packet(sock(1, 1, 1, 1, 2), 7, at(30)).unwrap().key, "c2");
    assert_eq!(proxy.response_targets(), vec![sock(1, 1, 1, 1, 1), sock(1, 1, 1, 1, 2)]);
    assert_eq!(proxy.cleanup_sessions(at(61)), 1);
    assert_eq!(proxy.response_targets(), vec![sock(1, 1, 1, 1, 2)]);
}

fn socket(id: usize, port: u16) -> ServerSocket {
    ServerSocket { id, local_addr: Some(sock(0, 0, 0, 0, port)) }
}

#[test]
fn links_of_clients() {
    let mut a = ServerAggregator::new(LoadBalanceStrategy::PacketRoundRobin);
    assert_eq!(a.register_client_connection(sock(1, 1, 1, 1, 10), socket(0, 5000)), Some(1));
    assert_eq!(a.register_client_connection(sock(1, 1, 1, 1, 11), socket(7, 5000)), None);
    assert_eq!(a.register_client_connection(sock(1, 1, 1, 1, 12), socket(1, 5001)), Some(2));
    assert_eq!(a.register_client_connection(sock(2, 2, 2, 2, 10), socket(1, 5001)), Some(1));
    let (client, links) = a.client_at(0).unwrap();
    assert_eq!(client, ip(1, 1, 1, 1));
    assert_eq!(links, &vec![(sock(1, 1, 1, 1, 10), socket(0, 5000)), (sock(1, 1, 1, 1, 12), socket(1, 5001))]);
    assert!(a.client_at(2).is_none());
    let picks: Vec<Option<usize>> = (0..3).map(|_| a.select_client_connection(sock(1, 1, 1, 1, 99))).collect();
    assert_eq!(picks, vec![Some(0), Some(1), Some(0)]);
    assert_eq!(a.select_client_connection(sock(3, 3, 3, 3, 1)), None);
    assert_eq!(
        a.send_response_to_client(sock(2, 2, 2, 2, 10)).unwrap(),
        Delivery { client: sock(2, 2, 2, 2, 10), socket: 1 }
    );
    assert!(a.complete_response(Ok(5)).is_ok());
    let e = a.send_response_to_client(sock(9, 9, 9, 9, 9)).unwrap_err();
    assert_eq!(e.message(), "No available connections for client");
    let e = a.complete_response(Err("x".to_string())).unwrap_err();
    assert_eq!(e.message(), "Response send failed: x");
}

#[test]
fn unknown_local_addresses_count_as_one() {
    let mut a = ServerAggregator::new(LoadBalanceStrategy::PacketRoundRobin);
    let unknown = |id| ServerSocket { id, local_addr: None };
    assert_eq!(a.register_client_connection(sock(1, 1, 1, 1, 10), unknown(0)), Some(1));
    assert_eq!(a.register_client_connection(sock(1, 1, 1, 1, 11), unknown(1)), None);
}

#[test]
fn backend_connections_in_turn() {
    let mut a = ServerAggregator::new(LoadBalanceStrategy::FastestFirst);
    let e = a.send_to_backend().unwrap_err();
    assert_eq!(e.message(), "No available backend connections");
    assert_eq!(a.select_backend_connection(), None);
    a.add_backend_connection();
    a.add_backend_connection();
    assert_eq!(a.backend_count(), 2);
    let picks: Vec<usize> = (0..3).map(|_| a.send_to_backend().unwrap()).collect();
    assert_eq!(picks, vec![0, 1, 0]);
    assert_eq!(ServerError::BackendSendFailed("x".to_string()).message(), "Backend send failed: x");
}

#[test]
fn responses_go_to_active_clients() {
    let mut a = ServerAggregator::new(LoadBalanceStrategy::PacketRoundRobin);
    let target = sock(9, 9, 9, 9, 9);
    let (c1, c2, c3) = (sock(1, 1, 1, 1, 10), sock(2, 2, 2, 2, 20), sock(3, 3, 3, 3, 30));
    a.register_client_connection(c1, socket(0, 5000));
    a.register_client_connection(c1, socket(1, 5001));
    a.register_client_connection(c2, socket(2, 5002));
    a.record_backend_send(0, c1, at(10));
    a.record_backend_send(0, c2, at(25));
    a.record_backend_send(0, c1, at(11));
    a.record_backend_send(0, c3, at(25));
    a.record_backend_send(1, c2, at(25));
    let (out, turn) = a.route_response(0, target, target, at(30), 1);
    assert_eq!(out, vec![Delivery { client: c1, socket: 1 }, Delivery { client: c2, socket: 2 }]);
    assert_eq!(turn, 3);
    let (out, turn) = a.route_response(0, target, target, at(41), turn);
    assert_eq!(out, vec![Delivery { client: c2, socket: 2 }]);
    assert_eq!(turn, 4);
    assert_eq!(a.route_response(0, c1, target, at(30), 5), (Vec::new(), 5));
    assert_eq!(a.route_response(7, target, target, at(30), 5), (Vec::new(), 5));
    assert_eq!(a.active_clients_of(1, at(54)), vec![c2]);
    assert!(a.active_clients_of(1, at(55)).is_empty());
    assert_eq!(a.backend_usage(ip(2, 2, 2, 2)), vec![0, 1]);
    assert_eq!(a.backend_usage(ip(1, 1, 1, 1)), vec![0]);
    assert_eq!(a.backend_usage(ip(3, 3, 3, 3)), Vec::<usize>::new());
    assert_eq!(a.backend_pool(), vec![(0, 3), (1, 1)]);
}

#[test]
fn expired_clients_are_dropped() {
    let mut a = ServerAggregator::new(LoadBalanceStrategy::PacketRoundRobin);
    let (c1, c2) = (sock(1, 1, 1, 1, 10), sock(2, 2, 2, 2, 20));
    a.record_backend_send(0, c1, at(0));
    a.record_backend_send(1, c1, at(0));
    a.record_backend_send(1, c2, at(30));
    assert_eq!(a.cleanup_expired_clients(at(60)), 0);
    assert_eq!(a.cleanup_expired_clients(at(61)), 1);
    assert_eq!(a.backend_pool(), vec![(1, 1)]);
    assert_eq!(a.active_clients_of(1, at(40)), vec![c2]);
    assert_eq!(a.cleanup_expired_clients(at(1000)), 1);
    assert!(a.backend_pool().is_empty());
}

#[test]
fn server_side() {
    let mut a = ServerAggregator::new(LoadBalanceStrategy::PacketRoundRobin);
    a.add_backend_connection();
    let mut proxy = UdpProxyServer::new(a);
    let target = sock(9, 9, 9, 9, 9);
    let client = sock(1, 1, 1, 1, 10);
    assert_eq!(proxy.on_packet(client, socket(4, 5000), 100, target, at(0)).unwrap(), 0);
    assert!(proxy.complete_forward(0, client, 100, Ok(100), at(0)).is_ok());
    assert_eq!(proxy.on_packet(client, socket(4, 5000), 11, target, at(1)).unwrap(), 0);
    let e = proxy.complete_forward(0, client, 11, Err("down".to_string()), at(1)).unwrap_err();
    assert_eq!(e.message(), "Backend send failed: down");
    assert_eq!(
        proxy.counters(),
        ServerCounters { packets_received: 2, bytes_received: 111, packets_forwarded: 1, bytes_forwarded: 100 }
    );
    let (out, _) = proxy.aggregator().route_response(0, target, target, at(2), 0);
    assert_eq!(out, vec![Delivery { client, socket: 4 }]);
    assert!(proxy.complete_response(Ok(3)).is_ok());
    assert_eq!(proxy.cleanup_clients(at(100)), 1);
    assert_eq!(proxy.cleanup_sessions(at(301)), 0);
    assert_eq!(proxy.cleanup_sessions(at(302)), 1);
    let mut idle = UdpProxyServer::new(ServerAggregator::new(LoadBalanceStrategy::PacketRoundRobin));
    assert!(matches!(idle.on_packet(client, socket(0, 1), 1, target, at(0)), Err(ServerError::NoBackend)));
}

#[test]
fn strategy_names() {
    assert_eq!(parse_strategy("packet-round-robin"), LoadBalanceStrategy::PacketRoundRobin);
    assert_eq!(parse_strategy("weighted-bandwidth"), LoadBalanceStrategy::WeightedByBandwidth);
    assert_eq!(parse_strategy("fastest-first"), LoadBalanceStrategy::FastestFirst);
    assert_eq!(parse_strategy("weighted-packet-loss"), LoadBalanceStrategy::WeightedByPacketLoss);
    assert_eq!(parse_strategy("dynamic-adaptive"), LoadBalanceStrategy::DynamicAdaptive);
    assert_eq!(parse_strategy("fastest"), LoadBalanceStrategy::FastestFirst);
    assert_eq!(client_strategy("fastest", false), ClientStrategy::Balanced(LoadBalanceStrategy::FastestFirst));
    assert_eq!(parse_strategy("round-robin"), LoadBalanceStrategy::PacketRoundRobin);
    assert_eq!(parse_strategy("anything"), LoadBalanceStrategy::PacketRoundRobin);
    assert_eq!(
        client_strategy("fastest-first", false),
        ClientStrategy::Balanced(LoadBalanceStrategy::FastestFirst)
    );
    assert_eq!(
        client_strategy("anything", false),
        ClientStrategy::Balanced(LoadBalanceStrategy::PacketRoundRobin)
    );
    assert_eq!(client_strategy("random", false), ClientStrategy::Random);
    assert_eq!(client_strategy("weighted", false), ClientStrategy::Weighted);
    for name in ["fastest-first", "random", "weighted"] {
        assert_eq!(
            client_strategy(name, true),
            ClientStrategy::Balanced(LoadBalanceStrategy::PacketRoundRobin)
        );
    }
}

#[test]
fn status_of_the_client_side() {
    assert_eq!(status_text(0, &Vec::new(), 5, 5, 0, ""), "UDP Proxy - No active connections");
    let line = link_line("eth0_x", "4 KB/s", "ACTIVE", "0.0", "20ms");
    assert_eq!(line, "  eth0_x: 4 KB/s | ACTIVE | 0.0% if-err | RTT: 20ms\n");
    let lines = vec![line.clone(), line.clone()];
    assert_eq!(
        status_text(2, &lines, 1000, 4097, 0, ""),
        format!("UDP Proxy - 2 active connections:\n{}{}Total: 1000 packets, 4 KB forwarded", line, line)
    );
    assert!(status_text(2, &lines, 1001, 0, 0, "").ends_with("forwarded\nRate limit: UNLIMITED"));
    assert!(status_text(2, &lines, 1001, 0, 5, "9.5").ends_with("forwarded\nRate limit: 9.5 pps"));
    assert_eq!(client_label(1), "SINGLE-LINK (1)");
    assert_eq!(client_label(2), "MULTI-LINK (2)");
    assert_eq!(backend_label(0), "IDLE");
    assert_eq!(backend_label(3), "ACTIVE (serving 3 clients)");
}

#[test]
fn clients_and_backends_are_kept_apart() {
    let mut a = ServerAggregator::new(LoadBalanceStrategy::PacketRoundRobin);
    a.add_backend_connection();
    a.add_backend_connection();
    let mut proxy = UdpProxyServer::new(a);
    let target = sock(9, 9, 9, 9, 9);
    let (c1, c2) = (sock(1, 1, 1, 1, 10), sock(2, 2, 2, 2, 20));
    let b1 = proxy.on_packet(c1, socket(4, 5000), 1, target, at(0)).unwrap();
    assert!(proxy.complete_forward(b1, c1, 1, Ok(1), at(0)).is_ok());
    let b2 = proxy.on_packet(c2, socket(5, 5001), 1, target, at(0)).unwrap();
    assert!(proxy.complete_forward(b2, c2, 1, Ok(1), at(0)).is_ok());
    assert_eq!((b1, b2), (0, 1));
    assert_eq!(proxy.aggregator().active_clients_of(0, at(1)), vec![c1]);
    assert_eq!(proxy.aggregator().active_clients_of(1, at(1)), vec![c2]);
    let (out, _) = proxy.aggregator().route_response(0, target, target, at(1), 0);
    assert_eq!(out, vec![Delivery { client: c1, socket: 4 }]);
    let (out, _) = proxy.aggregator().route_response(1, target, target, at(1), 0);
    assert_eq!(out, vec![Delivery { client: c2, socket: 5 }]);
    assert_eq!(proxy.aggregator().client_at(0).unwrap().1.len(), 1);
    assert!(proxy.aggregator().client_at(2).is_none());
}

#[test]
fn packets_at_random() {
    let client = sock(1, 1, 1, 1, 1);
    let mut proxy = UdpProxyClient::new(ClientStrategy::Random);
    assert!(proxy.on_packet(client, 3, at(0)).is_err());
    proxy.aggregator = aggregator(LoadBalanceStrategy::PacketRoundRobin, 3);
    proxy.set_weight("c1".to_string(), 5);
    let keys: Vec<String> =
        [0, 1, 2, 3, u64::MAX].iter().map(|&draw| proxy.on_packet(client, draw, at(0)).unwrap().key).collect();
    assert_eq!(keys, vec!["c1", "c2", "c3", "c1", "c1"]);
}

#[test]
fn packets_by_weight() {
    let client = sock(1, 1, 1, 1, 1);
    let mut proxy = UdpProxyClient::new(ClientStrategy::Weighted);
    proxy.aggregator = aggregator(LoadBalanceStrategy::PacketRoundRobin, 3);
    let count = |proxy: &mut UdpProxyClient, draws: u64| {
        let keys: Vec<String> = (0..draws).map(|d| proxy.on_packet(client, d, at(0)).unwrap().key).collect();
        ["c1", "c2", "c3"].map(|name| keys.iter().filter(|key| key.as_str() == name).count())
    };
    assert_eq!(count(&mut proxy, 3), [1, 1, 1]);
    proxy.set_weight("c1".to_string(), 3);
    proxy.set_weight("c2".to_string(), 0);
    assert_eq!(count(&mut proxy, 8), [6, 0, 2]);
    proxy.set_weight("c1".to_string(), 0);
    proxy.set_weight("c3".to_string(), 0);
    assert_eq!(count(&mut proxy, 6), [2, 2, 2]);
    assert_eq!(place_of(&vec![2, 0, 1], 5), 2);
    assert_eq!(place_of(&vec![2, 0, 1], 4), 0);
}
