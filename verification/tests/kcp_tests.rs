use aggligator::addr::{IpAddr, Ipv4Addr, Ipv6Addr, SocketAddr, SocketAddrV6};
use aggligator::cli::{parse_key_val, KeyValError};
use aggligator::kcp::config::{
    create_optimized_kcp_config, nodelay_by_name, test_kcp_config, ConfigNote, KcpEnv, KcpNoDelayConfig,
};
use aggligator::kcp::connector::{check_listeners, tags_changed, ConnectMode, KcpConnector};
use aggligator::kcp::filter::{parse_kcp_link_filter, KcpLinkFilter};
use aggligator::kcp::link_tag::{Direction, KcpLinkTag};
use aggligator::kcp::plan::{filter_local_addresses, plan_links};
use aggligator::kcp::util::{
    is_compatible_ip_version, is_link_local, local_addresses_for_target, local_interface_for_ip, local_interfaces,
    use_proper_ipv4, InvalidInput, IpVersion, NetworkInterface,
};
use aggligator::time::Duration;

fn ip4(a: u8, b: u8, c: u8, d: u8) -> IpAddr {
    IpAddr::V4(Ipv4Addr::new(a, b, c, d))
}

fn ip6(a: u16, h: u16) -> IpAddr {
    IpAddr::V6(Ipv6Addr::new(a, 0, 0, 0, 0, 0, 0, h))
}

fn sock(ip: IpAddr, port: u16) -> SocketAddr {
    SocketAddr::new(ip, port)
}

fn iface(name: &str, addr: Vec<IpAddr>) -> NetworkInterface {
    NetworkInterface { name: name.to_string(), addr }
}

const LOCALHOST_V4: (u8, u8, u8, u8) = (127, 0, 0, 1);

#[test]
fn test_is_link_local() {
    // IPv6 link-local addresses
    assert!(is_link_local(IpAddr::V6(Ipv6Addr::new(0xfe80, 0, 0, 0, 0, 0, 0, 1))));
    assert!(is_link_local(IpAddr::V6(Ipv6Addr::new(0xfe80, 0x1234, 0, 0, 0, 0, 0, 1))));

    // IPv6 non-link-local addresses
    assert!(!is_link_local(IpAddr::V6(Ipv6Addr::new(0x2001, 0xdb8, 0, 0, 0, 0, 0, 1))));
    assert!(!is_link_local(IpAddr::V6(Ipv6Addr::new(0, 0, 0, 0, 0, 0, 0, 1))));

    // IPv4 link-local addresses
    assert!(is_link_local(IpAddr::V4(Ipv4Addr::new(169, 254, 1, 1))));
    assert!(is_link_local(IpAddr::V4(Ipv4Addr::new(169, 254, 255, 255))));

    // IPv4 non-link-local addresses
    assert!(!is_link_local(IpAddr::V4(Ipv4Addr::new(192, 168, 1, 1))));
    let (a, b, c, d) = LOCALHOST_V4;
    assert!(!is_link_local(IpAddr::V4(Ipv4Addr::new(a, b, c, d))));
}

#[test]
fn test_is_compatible_ip_version() {
    let ipv4_1 = IpAddr::V4(Ipv4Addr::new(192, 168, 1, 1));
    let ipv4_2 = IpAddr::V4(Ipv4Addr::new(10, 0, 0, 1));
    let ipv6_1 = IpAddr::V6(Ipv6Addr::new(0x2001, 0xdb8, 0, 0, 0, 0, 0, 1));
    let ipv6_2 = IpAddr::V6(Ipv6Addr::new(0, 0, 0, 0, 0, 0, 0, 1));

    assert!(is_compatible_ip_version(ipv4_1, ipv4_2));
    assert!(is_compatible_ip_version(ipv6_1, ipv6_2));
    assert!(!is_compatible_ip_version(ipv4_1, ipv6_1));
    assert!(!is_compatible_ip_version(ipv6_1, ipv4_1));
}

#[test]
fn test_plan_links_none_filter() {
    let locals = vec![sock(ip4(192, 168, 1, 100), 0), sock(ip4(10, 0, 0, 100), 0)];
    let remotes = vec![sock(ip4(192, 168, 1, 1), 8080), sock(ip4(10, 0, 0, 1), 8080)];

    let links = plan_links(KcpLinkFilter::NoFilter, &locals, &remotes, &[]);

    // Should return all combinations: 2 locals × 2 remotes = 4 links
    assert_eq!(links.len(), 4);

    // Verify all combinations are present
    for &local in &locals {
        for &remote in &remotes {
            assert!(links.contains(&(local, remote)));
        }
    }
}

#[test]
fn test_plan_links_interface_filter() {
    let locals = vec![
        sock(ip4(192, 168, 1, 100), 0),
        sock(ip4(10, 0, 0, 100), 0),
        sock(ip6(0xfe80, 1), 0), // link-local, should be filtered out
    ];
    let remotes = vec![sock(ip4(192, 168, 1, 1), 8080), sock(ip4(10, 0, 0, 1), 8080)];
    let interfaces = vec![
        iface("eth0", vec![ip4(192, 168, 1, 100), ip6(0xfe80, 1)]),
        iface("eth1", vec![ip4(10, 0, 0, 100)]),
        iface("eth2", vec![ip6(0xfe80, 1)]),
    ];

    let links = plan_links(KcpLinkFilter::InterfaceIp, &locals, &remotes, &interfaces);

    // Should filter out link-local addresses and maintain IP version compatibility
    for (local, _remote) in &links {
        assert!(!is_link_local(local.ip()));
    }
    assert_eq!(links.len(), 4);
}

#[test]
fn test_plan_links_max_4_per_pair() {
    let locals: Vec<SocketAddr> = (0..10).map(|i| sock(ip4(192, 168, 1, 100 + i), 0)).collect();
    let remotes = vec![sock(ip4(192, 168, 1, 1), 8080)];

    let links = plan_links(KcpLinkFilter::NoFilter, &locals, &remotes, &[]);

    // Should be limited to 4 links maximum per (local_ip, remote) pair
    // But since all locals have different IPs, we should get all 10
    assert_eq!(links.len(), 10);

    // Test with same IP but different ports (which shouldn't happen in practice)
    let locals_same_ip: Vec<SocketAddr> = (0..10).map(|i| sock(ip4(192, 168, 1, 100), 1000 + i)).collect();

    let links_same_ip = plan_links(KcpLinkFilter::NoFilter, &locals_same_ip, &remotes, &[]);

    // Should be limited to 4 since they all have the same IP
    assert!(links_same_ip.len() <= 4);
}

#[test]
fn full_groups_have_four_links() {
    let locals: Vec<SocketAddr> = (0..6).map(|i| sock(ip4(10, 0, 0, 1), 1000 + i)).collect();
    let remotes = vec![sock(ip4(10, 0, 0, 2), 1), sock(ip4(10, 0, 0, 2), 2)];
    let links = plan_links(KcpLinkFilter::NoFilter, &locals, &remotes, &[]);
    assert_eq!(links.len(), 8);
    assert!(links.contains(&(locals[3], remotes[1])));
    assert!(!links.contains(&(locals[4], remotes[0])));
}

#[test]
fn duplicates_count_once() {
    let local = sock(ip4(10, 0, 0, 1), 0);
    let remote = sock(ip4(10, 0, 0, 2), 1);
    let links = plan_links(KcpLinkFilter::NoFilter, &[local, local], &[remote, remote], &[]);
    assert_eq!(links, vec![(local, remote)]);
}

#[test]
fn one_address_per_interface() {
    let interfaces = vec![
        iface("eth0", vec![ip4(10, 0, 0, 1), ip6(0x2001, 1), ip6(0x2001, 2)]),
        iface("lo", vec![ip4(127, 0, 0, 1)]),
        iface("eth1", vec![ip4(0, 0, 0, 0), ip4(169, 254, 0, 1)]),
        iface("eth0", vec![]),
    ];
    let addrs = filter_local_addresses(&interfaces, KcpLinkFilter::InterfaceIp);
    assert_eq!(addrs, vec![sock(ip6(0x2001, 2), 0), sock(ip4(127, 0, 0, 1), 0)]);
    let first = filter_local_addresses(&interfaces, KcpLinkFilter::NoFilter);
    assert_eq!(first, vec![sock(ip4(10, 0, 0, 1), 0), sock(ip4(127, 0, 0, 1), 0)]);
}

#[test]
fn last_interface_of_a_name_counts() {
    let interfaces =
        vec![iface("eth0", vec![ip4(10, 0, 0, 1)]), iface("eth0", vec![ip4(127, 0, 0, 1), ip4(10, 0, 0, 2)])];
    let addrs = filter_local_addresses(&interfaces, KcpLinkFilter::InterfaceName);
    assert_eq!(addrs, vec![sock(ip4(10, 0, 0, 2), 0)]);
}

#[test]
fn without_usable_addresses_the_unspecified_ones_are_used() {
    let addrs = filter_local_addresses(&[], KcpLinkFilter::InterfaceIp);
    assert_eq!(addrs, vec![sock(ip4(0, 0, 0, 0), 0), sock(ip6(0, 0), 0)]);
    let remote = sock(ip6(0x2001, 9), 7);
    let links = plan_links(KcpLinkFilter::InterfaceName, &[], &[remote], &[]);
    assert_eq!(links, vec![(sock(ip6(0, 0), 0), remote)]);
}

#[test]
fn useless_interfaces_are_dropped() {
    let all = vec![iface("ifb0", vec![]), iface("eth0", vec![]), iface("if", vec![]), iface("ifb", vec![])];
    let names: Vec<String> = local_interfaces(all).into_iter().map(|i| i.name).collect();
    assert_eq!(names, vec!["eth0", "if"]);
}

#[test]
fn mapped_addresses_become_ipv4() {
    let mut sa = SocketAddr::V6(SocketAddrV6 {
        ip: Ipv6Addr::new(0, 0, 0, 0, 0, 0xffff, 0x0a00, 0x0001),
        port: 80,
        flowinfo: 1,
        scope_id: 1,
    });
    use_proper_ipv4(&mut sa);
    assert_eq!(sa, sock(ip4(10, 0, 0, 1), 80));
    let mut plain = sock(ip6(0x2001, 1), 80);
    use_proper_ipv4(&mut plain);
    assert_eq!(plain, sock(ip6(0x2001, 1), 80));
}

#[test]
fn interfaces_by_address() {
    let interfaces = vec![iface("a", vec![ip4(1, 1, 1, 1)]), iface("b", vec![ip4(2, 2, 2, 2), ip4(1, 1, 1, 1)])];
    assert_eq!(local_interface_for_ip(&interfaces, ip4(1, 1, 1, 1)), Some(b"a".to_vec()));
    assert_eq!(local_interface_for_ip(&interfaces, ip4(2, 2, 2, 2)), Some(b"b".to_vec()));
    assert_eq!(local_interface_for_ip(&interfaces, ip4(3, 3, 3, 3)), None);
}

#[test]
fn addresses_for_a_target() {
    let interfaces = vec![
        iface("lo", vec![ip4(127, 0, 0, 1), ip6(0, 1)]),
        iface("eth0", vec![ip4(10, 0, 0, 1), ip6(0x2001, 1), ip4(0, 0, 0, 0), ip4(10, 0, 0, 1)]),
    ];
    assert_eq!(
        local_addresses_for_target(&interfaces, sock(ip4(8, 8, 8, 8), 53)),
        vec![sock(ip4(10, 0, 0, 1), 0)]
    );
    assert_eq!(
        local_addresses_for_target(&interfaces, sock(ip4(127, 0, 0, 2), 53)),
        vec![sock(ip4(127, 0, 0, 1), 0)]
    );
    assert_eq!(local_addresses_for_target(&[], sock(ip6(0x2001, 2), 53)), vec![sock(ip6(0, 0), 0)]);
}

#[test]
fn ip_version_options() {
    assert_eq!(IpVersion::from_only(false, false), Ok(IpVersion::Both));
    assert_eq!(IpVersion::from_only(true, false), Ok(IpVersion::IPv4));
    assert_eq!(IpVersion::from_only(false, true), Ok(IpVersion::IPv6));
    assert_eq!(IpVersion::from_only(true, true), Err(InvalidInput::MutuallyExclusive));
    assert_eq!(InvalidInput::MutuallyExclusive.message(), "IPv4 and IPv6 options are mutually exclusive");
    assert!(IpVersion::IPv4.is_only_ipv4() && !IpVersion::IPv4.is_only_ipv6());
    assert!(IpVersion::IPv6.is_only_ipv6() && !IpVersion::Both.is_only_ipv4());
    assert_eq!(IpVersion::default(), IpVersion::Both);
}

#[test]
fn connector_link_tags() {
    let (cfg, _) = create_optimized_kcp_config(&env(None, None, None, None));
    let targets = vec![sock(ip4(8, 8, 8, 8), 1), sock(ip6(0x2001, 1), 2)];
    let mut connector = KcpConnector::new(cfg, targets.clone());
    assert_eq!(connector.resolve_interval(), Duration::from_secs(10));
    assert_eq!(connector.config().mtu, 1350);
    assert_eq!(connector.targets(), &targets[..]);
    assert_eq!(connector.name(), "kcp");
    let tags = connector.link_tags(&[]);
    assert_eq!(tags.len(), 4);
    assert_eq!(tags[0], KcpLinkTag::outgoing(sock(ip4(0, 0, 0, 0), 0), targets[0]));
    connector.set_filter(KcpLinkFilter::InterfaceIp);
    connector.set_resolve_interval(Duration::from_secs(3));
    let interfaces = vec![iface("eth0", vec![ip4(10, 0, 0, 1)])];
    assert_eq!(connector.link_tags(&interfaces), vec![KcpLinkTag::outgoing(sock(ip4(10, 0, 0, 1), 0), targets[0])]);
}

#[test]
fn changes_of_link_tags() {
    let a = KcpLinkTag::new(sock(ip4(1, 1, 1, 1), 0), sock(ip4(2, 2, 2, 2), 1), Direction::Outgoing);
    let b = KcpLinkTag::incoming(sock(ip4(1, 1, 1, 1), 0), sock(ip4(2, 2, 2, 2), 1));
    assert!(!tags_changed(&[a, b], &[b, a]));
    assert!(tags_changed(&[a], &[a, b]));
    assert!(tags_changed(&[a, b], &[a]));
    assert_eq!(a.label("R", "L"), "KCP -> R (local: L)");
    assert_eq!(b.label("R", "L"), "KCP <- R (local: L)");
    assert_eq!(a.transport_name(), "kcp");
    assert!(a.user_data().is_empty());
}

#[test]
fn connect_modes() {
    let remote = sock(ip4(2, 2, 2, 2), 1);
    let direct = KcpLinkTag::outgoing(sock(ip4(0, 0, 0, 0), 0), remote);
    assert_eq!(KcpConnector::connect_mode(&direct), ConnectMode::Direct);
    let local = sock(ip4(10, 0, 0, 1), 0);
    assert_eq!(KcpConnector::connect_mode(&KcpLinkTag::outgoing(local, remote)), ConnectMode::Bound(local));
}

#[test]
fn listeners_are_required() {
    assert_eq!(check_listeners(0), Err(InvalidInput::NoListener));
    assert_eq!(InvalidInput::NoListener.message(), "at least one listener is required");
    assert_eq!(check_listeners(1), Ok(()));
}

fn env(mtu: Option<&str>, send: Option<&str>, recv: Option<&str>, nodelay: Option<&str>) -> KcpEnv {
    KcpEnv {
        mtu: mtu.map(String::from),
        send_wnd: send.map(String::from),
        recv_wnd: recv.map(String::from),
        nodelay: nodelay.map(String::from),
    }
}

const FASTEST: KcpNoDelayConfig = KcpNoDelayConfig { nodelay: true, interval: 10, resend: 2, nc: true };

#[test]
fn standard_kcp_config() {
    let e = env(None, None, None, None);
    let (c, notes) = create_optimized_kcp_config(&e);
    assert_eq!(c.mtu, 1350);
    assert_eq!(c.wnd_size, (512, 512));
    assert_eq!(c.nodelay, FASTEST);
    assert_eq!(c.session_expire, Duration::from_secs(90));
    assert!(!c.stream && !c.flush_write && !c.flush_acks_input && !c.allow_recv_empty_packet);
    assert!(notes.is_empty());
    let check = test_kcp_config(&c, &e);
    assert!(check.nodelay_fastest && check.windows_standard && check.mtu_standard);
}

#[test]
fn environment_overrides() {
    let e = env(Some("9000"), Some("1024"), Some("+7"), Some("NORMAL"));
    let (c, notes) = create_optimized_kcp_config(&e);
    assert_eq!(c.mtu, 9000);
    assert_eq!(c.wnd_size, (1024, 7));
    assert_eq!(c.nodelay, KcpNoDelayConfig { nodelay: false, interval: 40, resend: 0, nc: false });
    assert_eq!(
        notes,
        vec![
            ConfigNote::Mtu(9000),
            ConfigNote::SendWindow(1024),
            ConfigNote::RecvWindow(7),
            ConfigNote::Nodelay
        ]
    );
    let check = test_kcp_config(&c, &e);
    assert!(!check.nodelay_fastest && !check.windows_standard && !check.mtu_standard);
}

#[test]
fn unusable_environment() {
    let (c, notes) = create_optimized_kcp_config(&env(Some("49"), Some("0"), Some("65536"), Some("quick")));
    assert_eq!(c.mtu, 1350);
    assert_eq!(c.wnd_size, (512, 512));
    assert_eq!(c.nodelay, FASTEST);
    assert_eq!(notes, vec![ConfigNote::InvalidMtu(49), ConfigNote::InvalidNodelay, ConfigNote::Nodelay]);
    let (c, notes) = create_optimized_kcp_config(&env(Some("abc"), Some(""), Some("-1"), None));
    assert_eq!((c.mtu, c.wnd_size), (1350, (512, 512)));
    assert!(notes.is_empty());
}

#[test]
fn nodelay_names() {
    assert_eq!(nodelay_by_name("fastest"), Some(FASTEST));
    let relaxed = KcpNoDelayConfig { nodelay: false, interval: 100, resend: 0, nc: false };
    assert_eq!(nodelay_by_name("default"), Some(relaxed));
    assert_eq!(nodelay_by_name("Fastest"), None);
    let (c, _) = create_optimized_kcp_config(&env(None, None, None, Some("DeFaUlT")));
    assert_eq!(c.nodelay, relaxed);
}

#[test]
fn link_filter_names() {
    assert_eq!(parse_kcp_link_filter("none"), Some(KcpLinkFilter::NoFilter));
    assert_eq!(parse_kcp_link_filter("iface-ip"), Some(KcpLinkFilter::InterfaceIp));
    assert_eq!(parse_kcp_link_filter("iface-name"), Some(KcpLinkFilter::InterfaceName));
    assert_eq!(parse_kcp_link_filter("None"), None);
    assert_eq!(KcpLinkFilter::default(), KcpLinkFilter::NoFilter);
}

#[test]
fn key_value_pairs() {
    assert_eq!(parse_key_val::<u16, u16>("80:8080"), Ok((80, 8080)));
    assert_eq!(parse_key_val::<String, u16>("web:80"), Ok(("web".to_string(), 80)));
    assert_eq!(parse_key_val::<String, String>("a:b:c"), Ok(("a".to_string(), "b:c".to_string())));
    assert_eq!(parse_key_val::<u16, u16>("x:1"), Err(KeyValError::InvalidKey));
    assert_eq!(parse_key_val::<u16, u16>("1:65536"), Err(KeyValError::InvalidValue));
    assert_eq!(
        parse_key_val::<u16, u16>("80"),
        Err(KeyValError::NoColon("invalid KEY:VAL: no `:` found in `80`".to_string()))
    );
}

#[test]
fn each_remote_is_reached_by_its_ip_version() {
    let interfaces = vec![
        iface("eth0", vec![ip4(10, 0, 0, 5), ip6(0x2001, 5)]),
        iface("eth1", vec![ip6(0x2001, 6)]),
    ];
    let (v4, v6) = (sock(ip4(10, 0, 0, 1), 8080), sock(ip6(0x2001, 9), 8080));
    for filter in [KcpLinkFilter::InterfaceIp, KcpLinkFilter::InterfaceName] {
        let links = plan_links(filter, &[], &[v4], &interfaces[..1]);
        assert_eq!(links, vec![(sock(ip4(10, 0, 0, 5), 0), v4)]);
        let links = plan_links(filter, &[], &[v4, v6], &interfaces);
        assert_eq!(
            links,
            vec![
                (sock(ip4(10, 0, 0, 5), 0), v4),
                (sock(ip6(0x2001, 5), 0), v6),
                (sock(ip6(0x2001, 6), 0), v6)
            ]
        );
        assert!(plan_links(filter, &[], &[v4], &interfaces[1..]).is_empty());
    }
}

#[test]
fn one_link_for_each_remote_ip() {
    let interfaces = vec![iface("eth0", vec![ip4(10, 0, 0, 5)]), iface("eth1", vec![ip4(10, 0, 0, 6)])];
    let remotes =
        [sock(ip4(10, 0, 0, 1), 8080), sock(ip4(10, 0, 0, 1), 8081), sock(ip4(10, 0, 0, 2), 8080)];
    let (l0, l1) = (sock(ip4(10, 0, 0, 5), 0), sock(ip4(10, 0, 0, 6), 0));
    let links = plan_links(KcpLinkFilter::InterfaceIp, &[], &remotes, &interfaces);
    assert_eq!(links, vec![(l0, remotes[0]), (l1, remotes[0]), (l0, remotes[2]), (l1, remotes[2])]);
    let links = plan_links(KcpLinkFilter::InterfaceName, &[], &remotes, &interfaces);
    assert_eq!(links.len(), 6);
    assert!(links.contains(&(l1, remotes[1])));
}
