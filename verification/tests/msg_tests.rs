use aggligator::addr::{IpAddr, Ipv4Addr, Ipv6Addr, SocketAddr, SocketAddrV6};
use aggligator::num::NonZeroUsize;
use aggligator::time::Duration;
use aggligator::unordered_cfg::UnorderedCfg;
use aggligator::unordered_msg::{LinkId, LinkStatus, RefusedReason, UnorderedLinkMsg};
use aggligator::wire::{Cursor, MsgError, MsgErrorKind};

fn encode(msg: &UnorderedLinkMsg) -> Vec<u8> {
    let mut buffer = Vec::new();
    msg.write(&mut buffer).unwrap();
    buffer
}

fn decode(bytes: &[u8]) -> Result<UnorderedLinkMsg, MsgError> {
    UnorderedLinkMsg::read(&mut Cursor::new(bytes))
}

#[test]
fn test_message_roundtrip() {
    let messages = vec![
        UnorderedLinkMsg::Welcome { cfg: UnorderedCfg::default(), link_id: LinkId(42) },
        UnorderedLinkMsg::Connect {
            group_id: 12345,
            user_data: b"test data".to_vec(),
            cfg: UnorderedCfg::default(),
        },
        UnorderedLinkMsg::Accepted { link_id: LinkId(99), cfg: UnorderedCfg::default() },
        UnorderedLinkMsg::Refused { reason: RefusedReason::GroupFull },
        UnorderedLinkMsg::Ping { timestamp: 1234567890 },
        UnorderedLinkMsg::Pong { timestamp: 1234567890 },
        UnorderedLinkMsg::Data {
            link_id: LinkId(5),
            session_id: 0,
            original_client: None,
            payload: b"test data".to_vec(),
        },
        UnorderedLinkMsg::LinkStatus { link_id: LinkId(7), status: LinkStatus::Slow },
        UnorderedLinkMsg::Goodbye { reason: "test shutdown".to_string() },
    ];

    for original in messages {
        let mut buffer = Vec::new();
        original.write(&mut buffer).unwrap();

        let mut cursor = Cursor::new(&buffer);
        let decoded = UnorderedLinkMsg::read(&mut cursor).unwrap();

        assert_eq!(original, decoded);
    }
}

#[test]
fn test_config_roundtrip() {
    let configs = vec![
        UnorderedCfg::default(),
        UnorderedCfg::low_latency(),
        UnorderedCfg::high_throughput(),
        UnorderedCfg::unreliable_network(),
    ];

    for original in configs {
        let mut buffer = Vec::new();
        original.write(&mut buffer).unwrap();

        let mut cursor = Cursor::new(&buffer);
        let decoded = UnorderedCfg::read(&mut cursor).unwrap();

        assert_eq!(original, decoded);
    }
}

#[test]
fn ping_bytes() {
    let bytes = encode(&UnorderedLinkMsg::Ping { timestamp: 0x0102030405060708 });
    assert_eq!(bytes, vec![5, 1, 2, 3, 4, 5, 6, 7, 8]);
}

#[test]
fn data_bytes() {
    let addr = SocketAddr::new(IpAddr::V4(Ipv4Addr::new(10, 0, 0, 1)), 0x1234);
    let msg = UnorderedLinkMsg::Data {
        link_id: LinkId(3),
        session_id: 9,
        original_client: Some(addr),
        payload: vec![0xAA, 0xBB],
    };
    let mut expected = vec![7u8];
    expected.extend_from_slice(&3u128.to_be_bytes());
    expected.extend_from_slice(&9u64.to_be_bytes());
    expected.extend_from_slice(&[1, 4, 10, 0, 0, 1, 0x12, 0x34]);
    expected.extend_from_slice(&[0, 0, 0, 2, 0xAA, 0xBB]);
    assert_eq!(encode(&msg), expected);
    assert_eq!(decode(&expected), Ok(msg));
}

#[test]
fn connect_bytes() {
    let msg = UnorderedLinkMsg::Connect { group_id: 1, user_data: vec![9], cfg: UnorderedCfg::default() };
    let bytes = encode(&msg);
    assert_eq!(&bytes[..18], &[2, b'U', b'A', b'G', b'G', 0, 2, 0, 0, 0, 0, 0, 0, 0, 1, 0, 1, 9]);
    assert_eq!(&bytes[18..26], &[0, 0, 1, 0, 0, 0, 1, 0]);
    assert_eq!(bytes[26], 1);
    assert_eq!(*bytes.last().unwrap(), 3);
    assert_eq!(UnorderedLinkMsg::PROTOCOL_VERSION, 2);
}

#[test]
fn ipv6_client_roundtrip() {
    let ip = Ipv6Addr::new(0x2001, 0xdb8, 0, 0, 0, 0, 0, 1);
    let msg = UnorderedLinkMsg::Data {
        link_id: LinkId(u128::MAX),
        session_id: u64::MAX,
        original_client: Some(SocketAddr::new(IpAddr::V6(ip), 65535)),
        payload: Vec::new(),
    };
    let bytes = encode(&msg);
    assert_eq!(bytes.len(), 1 + 16 + 8 + 1 + 1 + 16 + 2 + 4);
    assert_eq!(decode(&bytes), Ok(msg));
}

#[test]
fn scope_of_ipv6_client_is_not_sent() {
    let ip = Ipv6Addr::new(0xfe80, 0, 0, 0, 0, 0, 0, 1);
    let scoped = SocketAddr::V6(SocketAddrV6 { ip, port: 5, flowinfo: 1, scope_id: 2 });
    let msg = UnorderedLinkMsg::Data {
        link_id: LinkId(1),
        session_id: 1,
        original_client: Some(scoped),
        payload: vec![1],
    };
    match decode(&encode(&msg)).unwrap() {
        UnorderedLinkMsg::Data { original_client, .. } => {
            assert_eq!(original_client, Some(SocketAddr::new(IpAddr::V6(ip), 5)));
        }
        other => panic!("unexpected {:?}", other),
    }
}

#[test]
fn address_flag_other_than_one_is_read() {
    let msg = UnorderedLinkMsg::Data {
        link_id: LinkId(1),
        session_id: 1,
        original_client: Some(SocketAddr::new(IpAddr::V4(Ipv4Addr::new(1, 2, 3, 4)), 5)),
        payload: vec![1],
    };
    let mut bytes = encode(&msg);
    bytes[25] = 200;
    assert_eq!(decode(&bytes), Ok(msg));
}

#[test]
fn reading_leaves_the_rest() {
    let mut bytes = encode(&UnorderedLinkMsg::Pong { timestamp: 77 });
    bytes.extend_from_slice(&[1, 2, 3]);
    let mut cursor = Cursor::new(&bytes);
    assert_eq!(UnorderedLinkMsg::read(&mut cursor), Ok(UnorderedLinkMsg::Pong { timestamp: 77 }));
    assert_eq!(cursor.position(), 9);
    assert_eq!(cursor.read_exact(3), Ok(vec![1, 2, 3]));
    assert_eq!(cursor.read_u8(), Err(MsgError::UnexpectedEof));
}

#[test]
fn written_again_bytes_are_the_same() {
    let bytes = encode(&UnorderedLinkMsg::Accepted { link_id: LinkId(8), cfg: UnorderedCfg::low_latency() });
    assert_eq!(encode(&decode(&bytes).unwrap()), bytes);
}

#[test]
fn truncated_input() {
    for msg in [
        UnorderedLinkMsg::Welcome { cfg: UnorderedCfg::default(), link_id: LinkId(42) },
        UnorderedLinkMsg::Goodbye { reason: "bye".to_string() },
        UnorderedLinkMsg::Ping { timestamp: 5 },
    ] {
        let bytes = encode(&msg);
        for n in 0..bytes.len() {
            assert_eq!(decode(&bytes[..n]), Err(MsgError::UnexpectedEof));
        }
    }
}

#[test]
fn malformed_input() {
    assert_eq!(decode(&[0]), Err(MsgError::UnknownMessageType));
    assert_eq!(decode(&[10]), Err(MsgError::UnknownMessageType));
    assert_eq!(decode(&[1, b'U', b'A', b'G', b'G', 1]), Err(MsgError::InvalidMagic));
    assert_eq!(decode(&[2, b'U', b'A', b'G', b'G', 0, 3]), Err(MsgError::UnsupportedVersion));
    assert_eq!(decode(&[4, 0]), Err(MsgError::UnknownRefusedReason));
    assert_eq!(decode(&[4, 7]), Err(MsgError::UnknownRefusedReason));
    assert_eq!(decode(&[9, 0, 1, 0xFF]), Err(MsgError::InvalidUtf8));
    let mut status = vec![8u8];
    status.extend_from_slice(&[0; 16]);
    status.push(5);
    assert_eq!(decode(&status), Err(MsgError::UnknownLinkStatus));
    let mut data = vec![7u8];
    data.extend_from_slice(&[0; 24]);
    data.extend_from_slice(&[1, 5]);
    assert_eq!(decode(&data), Err(MsgError::UnknownAddressType));
}

#[test]
fn malformed_configuration() {
    let mut bytes = Vec::new();
    UnorderedCfg::default().write(&mut bytes).unwrap();
    let read = |bytes: &[u8]| UnorderedCfg::read(&mut Cursor::new(bytes));
    let mut b = bytes.clone();
    b[..4].copy_from_slice(&[0; 4]);
    assert_eq!(read(&b), Err(MsgError::InvalidSendQueue));
    let mut b = bytes.clone();
    b[4..8].copy_from_slice(&[0; 4]);
    assert_eq!(read(&b), Err(MsgError::InvalidRecvQueue));
    let mut b = bytes.clone();
    b[8] = 6;
    assert_eq!(read(&b), Err(MsgError::UnknownStrategy));
    let mut b = bytes.clone();
    b[29..33].copy_from_slice(&[0; 4]);
    assert_eq!(read(&b), Err(MsgError::InvalidConnectQueue));
    let mut b = bytes.clone();
    *b.last_mut().unwrap() = 4;
    assert_eq!(read(&b), Err(MsgError::InvalidNodeRole));
}

#[test]
fn fields_that_are_too_long() {
    let mut out = Vec::new();
    let connect =
        UnorderedLinkMsg::Connect { group_id: 3, user_data: vec![0; 65536], cfg: UnorderedCfg::default() };
    assert_eq!(connect.write(&mut out), Err(MsgError::UserDataTooLong));
    assert_eq!(out, vec![2, b'U', b'A', b'G', b'G', 0, 2, 0, 0, 0, 0, 0, 0, 0, 3]);
    let mut out = Vec::new();
    let goodbye = UnorderedLinkMsg::Goodbye { reason: "x".repeat(65536) };
    assert_eq!(goodbye.write(&mut out), Err(MsgError::ReasonTooLong));
    assert_eq!(out, vec![9]);
    let goodbye = UnorderedLinkMsg::Goodbye { reason: "é".repeat(32767) };
    assert_eq!(decode(&encode(&goodbye)), Ok(goodbye));
}

#[test]
fn fields_that_do_not_fit_are_cut() {
    let mut cfg = UnorderedCfg::default();
    cfg.heartbeat_interval = Duration { nanos: 1_999_999 };
    cfg.send_queue = NonZeroUsize::new(0x1_0000_0005).unwrap();
    let mut bytes = Vec::new();
    cfg.write(&mut bytes).unwrap();
    let decoded = UnorderedCfg::read(&mut Cursor::new(&bytes)).unwrap();
    assert_eq!(decoded.heartbeat_interval.as_millis(), 1);
    assert_eq!(decoded.heartbeat_interval, Duration::from_millis(1));
    assert_eq!(decoded.send_queue.get(), 5);
}

#[test]
fn error_texts() {
    assert_eq!(MsgError::UserDataTooLong.message(), "user data too long");
    assert_eq!(MsgError::PayloadTooLong.message(), "payload too long");
    assert_eq!(MsgError::InvalidUtf8.message(), "invalid UTF-8 in reason");
    assert_eq!(MsgError::InvalidNodeRole.message(), "invalid node_role");
    assert_eq!(MsgError::UnexpectedEof.kind(), MsgErrorKind::UnexpectedEof);
    assert_eq!(MsgError::InvalidMagic.kind(), MsgErrorKind::InvalidData);
}

#[test]
fn every_code_roundtrips() {
    for reason in [
        RefusedReason::GroupNotFound,
        RefusedReason::GroupFull,
        RefusedReason::IncompatibleConfig,
        RefusedReason::ServerShutdown,
        RefusedReason::AuthFailed,
        RefusedReason::RateLimited,
    ] {
        let msg = UnorderedLinkMsg::Refused { reason };
        assert_eq!(decode(&encode(&msg)), Ok(msg));
    }
    for status in [LinkStatus::Active, LinkStatus::Blocked, LinkStatus::Slow, LinkStatus::Disconnecting] {
        let msg = UnorderedLinkMsg::LinkStatus { link_id: LinkId(0), status };
        assert_eq!(decode(&encode(&msg)), Ok(msg));
    }
}

#[test]
fn cursor_numbers() {
    let bytes: Vec<u8> = (1..=31).collect();
    let mut cursor = Cursor::new(&bytes);
    assert_eq!(cursor.read_u16(), Ok(0x0102));
    assert_eq!(cursor.read_u32(), Ok(0x03040506));
    assert_eq!(cursor.read_u64(), Ok(0x0708090a0b0c0d0e));
    assert_eq!(cursor.read_u128(), Ok(0x0f101112131415161718191a1b1c1d1e));
    assert_eq!(cursor.read_u16(), Err(MsgError::UnexpectedEof));
    assert_eq!(cursor.read_u8(), Ok(31));
}

#[test]
fn beginnings_of_messages() {
    let cfg = UnorderedCfg {
        heartbeat_interval: Duration { nanos: 1_500_001 },
        ..UnorderedCfg::low_latency()
    };
    let scoped = SocketAddr::V6(SocketAddrV6 {
        ip: Ipv6Addr::new(0xfe80, 0, 0, 0, 0, 0, 0, 1),
        port: 9,
        flowinfo: 3,
        scope_id: 2,
    });
    for msg in [
        UnorderedLinkMsg::Welcome { cfg: cfg.clone(), link_id: LinkId(42) },
        UnorderedLinkMsg::Connect { group_id: 1, user_data: b"abc".to_vec(), cfg: cfg.clone() },
        UnorderedLinkMsg::Accepted { link_id: LinkId(99), cfg },
        UnorderedLinkMsg::Refused { reason: RefusedReason::GroupFull },
        UnorderedLinkMsg::Pong { timestamp: 5 },
        UnorderedLinkMsg::Data {
            link_id: LinkId(5),
            session_id: 1,
            original_client: Some(scoped),
            payload: b"test".to_vec(),
        },
        UnorderedLinkMsg::LinkStatus { link_id: LinkId(7), status: LinkStatus::Slow },
    ] {
        let mut bytes = encode(&msg);
        let len = bytes.len();
        for n in 0..len {
            assert_eq!(decode(&bytes[..n]).unwrap_err().kind(), MsgErrorKind::UnexpectedEof);
        }
        let whole = decode(&bytes).unwrap();
        bytes.extend_from_slice(b"more");
        let mut cursor = Cursor::new(&bytes);
        assert_eq!(UnorderedLinkMsg::read(&mut cursor).unwrap(), whole);
        assert_eq!(cursor.position(), len);
    }
}

#[test]
fn codes_take_one_byte() {
    for code in 0..=255u8 {
        let bytes = [code, 1, 2];
        let mut cursor = Cursor::new(&bytes);
        match RefusedReason::read(&mut cursor) {
            Ok(reason) => {
                let mut again = Vec::new();
                reason.write(&mut again);
                assert_eq!(again, vec![code]);
            }
            Err(e) => {
                assert!(code == 0 || code > 6);
                assert_eq!(e, MsgError::UnknownRefusedReason);
            }
        }
        assert_eq!(cursor.position(), 1);
        let mut cursor = Cursor::new(&bytes);
        match LinkStatus::read(&mut cursor) {
            Ok(status) => {
                let mut again = Vec::new();
                status.write(&mut again);
                assert_eq!(again, vec![code]);
            }
            Err(e) => {
                assert!(code == 0 || code > 4);
                assert_eq!(e, MsgError::UnknownLinkStatus);
            }
        }
        assert_eq!(cursor.position(), 1);
    }
}
