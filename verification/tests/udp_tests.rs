use aggligator::addr::{IpAddr, Ipv4Addr, Ipv6Addr, SocketAddr};
use aggligator::join::{join_result, panic_payload_as_str, JoinError, JoinErrorRepr};
use aggligator::kcp::link_tag::Direction;
use aggligator::kcp::util::NetworkInterface;
use aggligator::load_balancer::Measure;
use aggligator::text::{contains, decimal_text, parse_unsigned, same, starts_with};
use aggligator::time::Duration;
use aggligator::udp::connector::{interface_names_for_target, tags_changed, UdpConnectError, UdpConnector, UdpLinkTag};
use aggligator::udp::send_buffer::{Accepted, FlushStep, Readiness, SendBuffer, TrySend, MAX_BUFFER_SIZE};
use aggligator::udp::task::{select_socket, weights_kept};

fn v4(a: u8, b: u8, c: u8, d: u8) -> IpAddr {
    IpAddr::V4(Ipv4Addr::new(a, b, c, d))
}

fn target() -> SocketAddr {
    SocketAddr::new(v4(8, 8, 8, 8), 53)
}

#[test]
fn udp_link_tags() {
    let mut connector = UdpConnector::new(vec![target(), target()]);
    assert_eq!(connector.resolve_interval(), Duration::from_secs(10));
    connector.set_resolve_interval(Duration::from_secs(1));
    assert_eq!(connector.resolve_interval(), Duration::from_secs(1));
    assert_eq!(connector.name(), "UDP");
    assert_eq!(connector.targets().len(), 2);
    let eth0 = b"eth0".to_vec();
    let eth1 = b"eth1".to_vec();
    let iface = |name: &str, addr| NetworkInterface { name: name.to_string(), addr };
    let interfaces = vec![
        iface("lo", vec![v4(127, 0, 0, 1)]),
        iface("eth0", vec![v4(10, 0, 0, 1)]),
        iface("eth2", vec![v4(0, 0, 0, 0)]),
        iface("eth0", vec![v4(10, 0, 0, 2)]),
        iface("eth1", vec![v4(10, 0, 0, 3)]),
    ];
    assert_eq!(
        interface_names_for_target(&interfaces, target()),
        vec![eth0.clone(), eth0.clone(), eth1.clone()]
    );
    let tags = connector.link_tags(&interfaces);
    for tag in &tags {
        assert!(UdpConnector::connect_from(&interfaces, tag).is_ok());
    }
    assert_eq!(
        tags,
        vec![
            UdpLinkTag::new(&eth0, target(), Direction::Outgoing),
            UdpLinkTag::new(&eth1, target(), Direction::Outgoing)
        ]
    );
    assert_eq!(tags[1].user_data(), eth1);
    assert_eq!(tags[0].label("R", "eth0"), "UDP to R via eth0");
    assert_eq!(UdpLinkTag::new(&eth0, target(), Direction::Incoming).label("R", "I"), "UDP from R via I");
    assert_eq!(tags[0].transport_name(), "UDP");
    let reversed = vec![tags[1].clone(), tags[0].clone()];
    assert!(!tags_changed(&tags, &reversed));
    assert!(tags_changed(&tags, &vec![tags[0].clone()]));
    assert!(tags_changed(&Vec::new(), &tags));
}

#[test]
fn udp_connect_source() {
    let interfaces = vec![
        NetworkInterface { name: "lo".to_string(), addr: vec![v4(127, 0, 0, 1)] },
        NetworkInterface {
            name: "eth0".to_string(),
            addr: vec![
                IpAddr::V6(Ipv6Addr::new(0x2001, 0, 0, 0, 0, 0, 0, 1)),
                v4(0, 0, 0, 0),
                v4(10, 0, 0, 1),
                v4(10, 0, 0, 2),
            ],
        },
    ];
    let tag = |name: &[u8]| UdpLinkTag::new(name, target(), Direction::Outgoing);
    assert_eq!(
        UdpConnector::connect_from(&interfaces, &tag(b"eth0")),
        Ok(SocketAddr::new(v4(10, 0, 0, 1), 0))
    );
    assert_eq!(UdpConnector::connect_from(&interfaces, &tag(b"lo")), Err(UdpConnectError::NoSuitableAddress));
    assert_eq!(UdpConnector::connect_from(&interfaces, &tag(b"x")), Err(UdpConnectError::InterfaceNotFound));
    assert_eq!(UdpConnectError::NoSuitableAddress.message(), "no suitable IP address on interface");
    assert_eq!(UdpConnectError::InterfaceNotFound.message(), "network interface not found");
}

#[test]
fn redundant_links_are_rejected() {
    let tag = |name: &[u8], dir| Some(UdpLinkTag::new(name, target(), dir));
    let existing = vec![None, tag(b"eth0", Direction::Incoming)];
    assert!(!UdpConnector::link_filter(&tag(b"eth0", Direction::Outgoing), &existing));
    assert!(UdpConnector::link_filter(&tag(b"eth1", Direction::Outgoing), &existing));
    assert!(UdpConnector::link_filter(&None, &existing));
}

#[test]
fn packets_wait_in_order() {
    let mut buffer: SendBuffer<u32> = SendBuffer::new();
    assert_eq!(buffer.begin_flush(), FlushStep::Flushed);
    assert_eq!(buffer.start_send(1, TrySend::Sent), Accepted::Sent);
    assert!(buffer.is_empty());
    assert_eq!(buffer.start_send(2, TrySend::Failed), Accepted::Failed);
    assert_eq!(buffer.start_send(3, TrySend::WouldBlock), Accepted::Buffered);
    assert_eq!(buffer.start_send(4, TrySend::Sent), Accepted::Buffered);
    assert_eq!(buffer.begin_flush(), FlushStep::Try);
    assert_eq!(buffer.front(), Some(&3));
    assert_eq!(buffer.after_attempt(TrySend::WouldBlock), FlushStep::Blocked);
    assert_eq!(buffer.after_attempt(TrySend::Sent), FlushStep::Try);
    assert_eq!(buffer.front(), Some(&4));
    assert_eq!(buffer.after_attempt(TrySend::Failed), FlushStep::Failed);
    assert_eq!(buffer.after_attempt(TrySend::Sent), FlushStep::Flushed);
    assert_eq!(buffer.front(), None);
    assert_eq!(buffer.readiness(FlushStep::Flushed), Readiness::Ready);
    assert_eq!(buffer.readiness(FlushStep::Blocked), Readiness::Pending);
    assert_eq!(buffer.readiness(FlushStep::Failed), Readiness::Failed);
}

#[test]
fn full_buffer_drops_packets() {
    let mut buffer: SendBuffer<usize> = SendBuffer::new();
    for i in 0..MAX_BUFFER_SIZE {
        assert_eq!(buffer.start_send(i, TrySend::WouldBlock), Accepted::Buffered);
    }
    assert_eq!(buffer.start_send(9999, TrySend::WouldBlock), Accepted::Dropped);
    assert_eq!(buffer.readiness(FlushStep::Flushed), Readiness::Pending);
    for i in 0..MAX_BUFFER_SIZE {
        assert_eq!(buffer.front(), Some(&i));
        buffer.after_attempt(TrySend::Sent);
    }
    assert!(buffer.is_empty());
}

#[test]
fn largest_deficit_sends() {
    let m = |x: i64| Measure { rank: Some(x) };
    let nan = Measure { rank: None };
    assert_eq!(select_socket(&[]), None);
    assert_eq!(select_socket(&[m(1), m(3), m(2)]), Some(1));
    assert_eq!(select_socket(&[m(3), m(3), m(2)]), Some(1));
    assert_eq!(select_socket(&[m(3), nan, m(2)]), Some(2));
    assert_eq!(select_socket(&[m(3), m(2), nan]), Some(2));
    assert_eq!(weights_kept(&[m(5), m(0), m(-1), nan], 4), vec![true, false, false, true]);
    assert_eq!(weights_kept(&[m(5)], 2), vec![false, false]);
    assert!(weights_kept(&[m(5)], 0).is_empty());
}

#[test]
fn join_errors() {
    let aborted: JoinError<u8> = JoinError::new(JoinErrorRepr::Aborted);
    assert!(aborted.is_cancelled() && !aborted.is_failed() && !aborted.is_panic());
    assert_eq!(aborted.message(None), "task was cancelled");
    assert!(aborted.try_into_panic().unwrap_err().is_cancelled());
    let failed: JoinError<u8> = JoinError::new(JoinErrorRepr::Failed);
    assert!(failed.is_failed() && !failed.is_cancelled());
    assert_eq!(failed.message(None), "task failed");
    let panicked = JoinError::new(JoinErrorRepr::Panicked(7u8));
    assert!(panicked.is_panic());
    assert_eq!(panicked.message(Some("oops")), "task panicked with message oops");
    assert_eq!(panicked.message(None), "task panicked");
    assert_eq!(panicked.try_into_panic().unwrap(), 7);
    assert_eq!(JoinError::new(JoinErrorRepr::Panicked(8u8)).into_panic(), 8);
}

#[test]
fn panic_payloads() {
    assert_eq!(panic_payload_as_str(Some("a"), Some("b")), Some("a"));
    assert_eq!(panic_payload_as_str(None, Some("b")), Some("b"));
    assert_eq!(panic_payload_as_str(None, None), None);
}

#[test]
fn results_of_tasks() {
    assert_eq!(join_result::<u8, u8>(Some(Ok(3))).unwrap(), 3);
    assert!(join_result::<u8, u8>(None).unwrap_err().is_failed());
}

#[test]
fn texts() {
    assert_eq!(decimal_text(0), "0");
    assert_eq!(decimal_text(1234567890), "1234567890");
    assert_eq!(decimal_text(u128::MAX), u128::MAX.to_string());
    assert!(starts_with("ethernet", "eth") && !starts_with("et", "eth") && starts_with("", ""));
    assert!(contains("my-vpn0", "vpn") && !contains("vp", "vpn") && contains("abc", ""));
    assert!(!contains("vvp", "vpn") && contains("xvpn", "vpn"));
    assert!(same("größe", "größe") && !same("a", "b") && !same("a", "ab"));
}

#[test]
fn numbers_in_text() {
    for text in ["0", "7", "+7", "007", "65535", "65536", "", "+", "-1", "1a", " 1", "++1", "99999999999999999999"] {
        assert_eq!(parse_unsigned(text, 65535), text.parse::<u16>().ok().map(u64::from), "{}", text);
        assert_eq!(parse_unsigned(text, u64::MAX), text.parse::<u64>().ok(), "{}", text);
    }
}

#[test]
fn address_ranges() {
    assert!(Ipv4Addr::new(10, 1, 2, 3).is_private());
    assert!(Ipv4Addr::new(172, 31, 0, 1).is_private() && !Ipv4Addr::new(172, 32, 0, 1).is_private());
    assert!(Ipv4Addr::new(192, 168, 0, 1).is_private() && !Ipv4Addr::new(192, 169, 0, 1).is_private());
    assert!(Ipv4Addr::new(224, 0, 0, 1).is_multicast() && !Ipv4Addr::new(240, 0, 0, 1).is_multicast());
    assert!(Ipv4Addr::new(255, 255, 255, 255).is_broadcast());
    assert!(Ipv4Addr::new(127, 9, 9, 9).is_loopback() && Ipv4Addr::new(0, 0, 0, 0).is_unspecified());
    let v6 = |a: u16, h: u16| Ipv6Addr::new(a, 0, 0, 0, 0, 0, 0, h);
    assert!(v6(0xfe80, 1).is_unicast_link_local() && v6(0xfebf, 1).is_unicast_link_local());
    assert!(!v6(0xfec0, 1).is_unicast_link_local());
    assert!(v6(0xfc00, 1).is_unique_local() && v6(0xfdff, 1).is_unique_local() && !v6(0xfe00, 1).is_unique_local());
    assert!(v6(0xff02, 1).is_multicast() && !v6(0xfeff, 1).is_multicast());
    assert!(v6(0, 1).is_loopback() && v6(0, 0).is_unspecified());
    let mapped = Ipv6Addr::new(0, 0, 0, 0, 0, 0xffff, 0xc0a8, 0x0102);
    assert_eq!(mapped.to_ipv4_mapped(), Some(Ipv4Addr::new(192, 168, 1, 2)));
    assert_eq!(v6(0, 1).to_ipv4_mapped(), None);
}
