use aggligator::addr::{IpAddr, Ipv4Addr, Ipv6Addr, SocketAddr};
use aggligator::hashing::data_session_id;
use aggligator::session::{
    checksum_input, generate_udp_session_id, SessionHeader, SessionManager, SessionPacket, SessionPacketBuilder,
};
use aggligator::time::{Duration, Instant};
use std::collections::hash_map::DefaultHasher;
use std::hash::{Hash, Hasher};

fn v4(a: u8, b: u8, c: u8, d: u8, port: u16) -> SocketAddr {
    SocketAddr::new(IpAddr::V4(Ipv4Addr::new(a, b, c, d)), port)
}

fn at(secs: u64) -> Instant {
    Instant { nanos: secs * 1_000_000_000 }
}

#[test]
fn test_session_manager() {
    let mut manager = SessionManager::new(Duration::from_secs(60));
    let addr = SocketAddr::new(IpAddr::V4(Ipv4Addr::new(127, 0, 0, 1)), 12345);

    // Test session creation
    let session_id = manager.get_or_create_session(addr, at(1));
    assert!(session_id > 0);

    // Test session lookup
    assert_eq!(manager.get_client_addr(session_id), Some(addr));

    // Test session reuse
    let session_id2 = manager.get_or_create_session(addr, at(2));
    assert_eq!(session_id, session_id2);
}

#[test]
fn test_session_header() {
    let addr = SocketAddr::new(IpAddr::V4(Ipv4Addr::new(127, 0, 0, 1)), 12345);
    let header = SessionHeader::new(42, addr);

    // Test validation
    assert!(header.validate(addr));

    // Test port matching
    assert_eq!(header.client_port, 12345);

    // Test serialization
    let bytes = header.to_bytes();
    let decoded = SessionHeader::from_bytes(&bytes).unwrap();
    assert_eq!(header.session_id, decoded.session_id);
    assert_eq!(header.addr_crc32, decoded.addr_crc32);
    assert_eq!(header.client_port, decoded.client_port);

    // Test validation with different address should fail
    let different_addr = SocketAddr::new(IpAddr::V4(Ipv4Addr::new(192, 168, 1, 1)), 12345);
    assert!(!header.validate(different_addr));
}

#[test]
fn test_session_packet() {
    let payload = b"Hello, World!";
    let addr = SocketAddr::new(IpAddr::V4(Ipv4Addr::new(127, 0, 0, 1)), 12345);

    // Build packet
    let packet_data = SessionPacketBuilder::new(42, addr, payload.to_vec()).build();

    // Parse packet
    let packet = SessionPacket::new(&packet_data).unwrap();
    let header = packet.header().unwrap();

    assert_eq!(header.session_id, 42);
    assert_eq!(packet.payload(), payload);
    assert!(header.validate(addr));
}

#[test]
fn test_udp_session_id_generation() {
    let client_addr = v4(127, 0, 0, 1, 12345);
    let server_addr = v4(192, 168, 1, 100, 80);

    // Test that same inputs generate same session ID
    let session_id1 = generate_udp_session_id(client_addr, server_addr, 17);
    let session_id2 = generate_udp_session_id(client_addr, server_addr, 17);
    assert_eq!(session_id1, session_id2);

    // Test that different client generates different session ID
    let different_client = v4(127, 0, 0, 1, 12346);
    let session_id3 = generate_udp_session_id(different_client, server_addr, 17);
    assert_ne!(session_id1, session_id3);

    // Test that different server generates different session ID
    let different_server = v4(192, 168, 1, 101, 80);
    let session_id4 = generate_udp_session_id(client_addr, different_server, 17);
    assert_ne!(session_id1, session_id4);

    // Test that different protocol generates different session ID
    let session_id5 = generate_udp_session_id(client_addr, server_addr, 6); // TCP
    assert_ne!(session_id1, session_id5);
}

#[test]
fn session_ids_count_up_from_two() {
    let mut manager = SessionManager::new(Duration::from_secs(60));
    assert_eq!(manager.get_or_create_session(v4(1, 1, 1, 1, 1), at(1)), 2);
    assert_eq!(manager.get_or_create_session(v4(1, 1, 1, 1, 2), at(1)), 3);
    assert_eq!(manager.get_or_create_session(v4(1, 1, 1, 1, 1), at(1)), 2);
    let stats = manager.stats();
    assert_eq!(stats.total_sessions_created, 2);
    assert_eq!(stats.active_sessions, 2);
}

#[test]
fn ipv6_clients_have_sessions() {
    let mut manager = SessionManager::new(Duration::from_secs(60));
    let addr = SocketAddr::new(IpAddr::V6(Ipv6Addr::new(0x2001, 0xdb8, 0, 0, 0, 0, 0, 1)), 9);
    let id = manager.get_or_create_session(addr, at(0));
    assert_eq!(manager.get_client_addr(id), Some(addr));
    assert_eq!(manager.get_original_client_addr(id), Some(addr));
    assert_eq!(manager.get_client_addr(id + 1), None);
}

#[test]
fn expired_sessions_are_dropped() {
    let mut manager = SessionManager::new(Duration::from_secs(60));
    let a = manager.get_or_create_session(v4(1, 1, 1, 1, 1), at(0));
    let b = manager.get_or_create_session(v4(2, 2, 2, 2, 2), at(0));
    assert!(manager.remember_aggregation_client(a, v4(9, 9, 9, 9, 9)));
    assert!(manager.touch_session(b, at(30)));
    assert!(!manager.touch_session(77, at(30)));
    assert_eq!(manager.cleanup_expired_sessions(at(60)), 0);
    assert_eq!(manager.cleanup_expired_sessions(at(61)), 1);
    assert_eq!(manager.get_client_addr(a), None);
    assert_eq!(manager.get_aggregation_client(a), None);
    assert_eq!(manager.get_client_addr(b), Some(v4(2, 2, 2, 2, 2)));
    assert!(!manager.touch_session(a, at(61)));
    assert_eq!(manager.stats().active_sessions, 1);
    assert_eq!(manager.stats().total_sessions_created, 2);
    assert_eq!(manager.cleanup_expired_sessions(at(1000)), 1);
    assert_eq!(manager.stats().active_sessions, 0);
}

#[test]
fn sessions_of_the_peer() {
    let mut manager = SessionManager::new(Duration::from_secs(60));
    let (client, agg) = (v4(10, 0, 0, 1, 1000), v4(10, 0, 0, 2, 2000));
    manager.remember_session_for_server(500, client, agg, at(5));
    assert_eq!(manager.get_original_client_addr(500), Some(client));
    assert_eq!(manager.get_aggregation_client(500), Some(agg));
    assert_eq!(manager.get_or_create_session(client, at(6)), 500);
    manager.set_agg_client_for_session(501, client);
    assert_eq!(manager.get_agg_client_for_session(501), Some(client));
    let mut active = manager.get_active_sessions();
    active.sort();
    assert_eq!(active, vec![(500, agg), (501, client)]);
}

#[test]
fn session_that_lost_its_address_is_not_touched() {
    let mut manager = SessionManager::new(Duration::from_secs(60));
    let client = v4(10, 0, 0, 1, 1000);
    manager.remember_session_for_server(5, client, client, at(0));
    manager.remember_session_for_server(6, client, client, at(0));
    assert!(!manager.touch_session(5, at(1)));
    assert!(manager.touch_session(6, at(1)));
}

#[test]
fn header_bytes() {
    let header = SessionHeader { session_id: 0x01020304, addr_crc32: 0x05060708, client_port: 0x090a, padding: 0x0b0c };
    let bytes: Vec<u8> = (1..=12).collect();
    assert_eq!(header.to_bytes().to_vec(), bytes);
    assert_eq!(SessionHeader::from_bytes(&bytes), Some(header));
    assert_eq!(SessionHeader::from_bytes(&bytes[..11]), None);
    let mut longer = bytes.clone();
    longer.push(99);
    assert_eq!(SessionHeader::from_bytes(&longer), Some(header));
}

#[test]
fn packets_need_a_header() {
    assert!(SessionPacket::new(&[0; 11]).is_none());
    let data = [7u8; 12];
    let packet = SessionPacket::new(&data).unwrap();
    assert_eq!(packet.payload(), &[] as &[u8]);
    assert_eq!(packet.raw_data(), &data);
}

#[test]
fn checksum_of_an_address() {
    let addr = v4(127, 0, 0, 1, 12345);
    assert_eq!(checksum_input(addr), vec![4, 127, 0, 0, 1, 0x30, 0x39]);
    let mut hasher = crc32fast::Hasher::new();
    hasher.update(&[4]);
    hasher.update(&[127, 0, 0, 1]);
    hasher.update(&12345u16.to_be_bytes());
    assert_eq!(SessionHeader::new(1, addr).addr_crc32, hasher.finalize());
    let v6 = SocketAddr::new(IpAddr::V6(Ipv6Addr::new(0, 0, 0, 0, 0, 0, 0, 1)), 1);
    let mut expected = vec![6u8];
    expected.extend_from_slice(&1u128.to_be_bytes());
    expected.extend_from_slice(&[0, 1]);
    assert_eq!(checksum_input(v6), expected);
}

#[test]
fn headers_with_known_checksum() {
    let addr = v4(1, 2, 3, 4, 5);
    let header = SessionHeader::with_checksum(9, 0xABCD, addr);
    assert!(header.matches(0xABCD, addr));
    assert!(!header.matches(0xABCE, addr));
    assert!(!header.matches(0xABCD, v4(1, 2, 3, 4, 6)));
    let packet = SessionPacketBuilder::with_header(header, vec![1, 2]).build();
    assert_eq!(packet.len(), 14);
    assert_eq!(SessionPacket::new(&packet).unwrap().header(), Some(header));
}

#[test]
fn sessions_from_packets() {
    let long: Vec<u8> = (0..64).collect();
    assert_eq!(
        SessionManager::generate_session_from_packet(&long),
        SessionManager::generate_session_from_packet(&long[..32])
    );
    assert_ne!(
        SessionManager::generate_session_from_packet(&long),
        SessionManager::generate_session_from_packet(&long[..31])
    );
    assert_eq!(SessionManager::generate_session_from_packet(b"abc"), data_session_id(b"abc"));
}

#[test]
fn sessions_of_data_follow_the_standard_hash() {
    let data: &[u8] = b"some data";
    let mut hasher = DefaultHasher::new();
    data.hash(&mut hasher);
    assert_eq!(data_session_id(data), hasher.finish());
}

#[test]
fn used_sessions_survive_the_cleanup() {
    let mut manager = SessionManager::new(Duration::from_secs(60));
    let (a, b) = (v4(1, 1, 1, 1, 1), v4(2, 2, 2, 2, 2));
    let id_a = manager.get_or_create_session(a, at(0));
    let id_b = manager.get_or_create_session(b, at(0));
    assert_ne!(id_a, id_b);
    manager.remember_aggregation_client(id_b, v4(9, 9, 9, 9, 9));
    assert!(manager.touch_session(id_a, at(50)));
    assert_eq!(manager.cleanup_expired_sessions(at(110)), 1);
    assert_eq!(manager.get_client_addr(id_a), Some(a));
    assert_eq!(manager.get_client_addr(id_b), None);
    assert_eq!(manager.get_aggregation_client(id_b), None);
    assert!(!manager.touch_session(id_b, at(110)));
    assert_eq!(manager.cleanup_expired_sessions(at(110)), 0);
    assert_eq!(manager.get_or_create_session(b, at(111)), id_b + 1);
}

#[test]
fn checksums_of_addresses() {
    assert_eq!(SessionHeader::new(1, v4(127, 0, 0, 1, 12345)).addr_crc32, 0x12d690b5);
    let v6 = SocketAddr::new(IpAddr::V6(Ipv6Addr::new(0x2001, 0xdb8, 0, 0, 0, 0, 0, 1)), 9);
    assert_eq!(SessionHeader::new(1, v6).addr_crc32, 0xa1c9bc28);
    let header = SessionHeader::new(1, v4(10, 0, 0, 1, 5));
    for other in [v4(10, 0, 0, 2, 5), v4(11, 0, 0, 1, 5), v4(1, 0, 0, 10, 5), v4(10, 0, 0, 1, 6)] {
        assert!(!header.validate(other));
    }
}

#[test]
fn sessions_over_a_history() {
    let mut manager = SessionManager::new(Duration::from_secs(60));
    let ports = [1, 2, 1, 3, 2, 2, 4];
    let ids: Vec<u32> =
        ports.iter().map(|&port| manager.get_or_create_session(v4(1, 1, 1, 1, port), at(0))).collect();
    for i in 0..ports.len() {
        assert_ne!(ids[i], 0);
        assert_eq!(manager.get_client_addr(ids[i]), Some(v4(1, 1, 1, 1, ports[i])));
        for j in 0..ports.len() {
            assert_eq!(ids[i] == ids[j], ports[i] == ports[j]);
        }
    }
    let stats = manager.stats();
    assert_eq!((stats.total_sessions_created, stats.active_sessions), (4, 4));
}
