use aggligator::num::NonZeroUsize;
use aggligator::time::Duration;
use aggligator::unordered_cfg::{LoadBalanceStrategy, NodeRole, UnorderedCfg};

#[test]
fn test_default_config_is_valid() {
    let cfg = UnorderedCfg::default();
    assert!(cfg.validate().is_ok());
}

#[test]
fn test_preset_configs_are_valid() {
    assert!(UnorderedCfg::low_latency().validate().is_ok());
    assert!(UnorderedCfg::high_throughput().validate().is_ok());
    assert!(UnorderedCfg::unreliable_network().validate().is_ok());
}

#[test]
fn test_invalid_config_detection() {
    let mut cfg = UnorderedCfg::default();

    // Test heartbeat >= timeout
    cfg.heartbeat_interval = Duration::from_secs(1);
    cfg.link_timeout = Duration::from_millis(500);
    assert!(cfg.validate().is_err());

    // Test packet size too small
    cfg = UnorderedCfg::default();
    cfg.max_packet_size = 32;
    assert!(cfg.validate().is_err());

    // Test packet size too large
    cfg = UnorderedCfg::default();
    cfg.max_packet_size = 70000;
    assert!(cfg.validate().is_err());
}

#[test]
fn default_values() {
    let cfg = UnorderedCfg::default();
    assert_eq!(cfg.send_queue.get(), 256);
    assert_eq!(cfg.recv_queue.get(), 256);
    assert_eq!(cfg.load_balance, LoadBalanceStrategy::PacketRoundRobin);
    assert_eq!(cfg.heartbeat_interval.as_millis(), 100);
    assert_eq!(cfg.link_timeout.as_millis(), 500);
    assert_eq!(cfg.max_packet_size, 1472);
    assert_eq!(cfg.connect_queue.get(), 16);
    let ms: Vec<u128> = cfg.stats_intervals.iter().map(|d| d.as_millis()).collect();
    assert_eq!(ms, vec![100, 1000, 10000]);
    assert_eq!(cfg.node_role, NodeRole::Balanced);
}

#[test]
fn preset_values() {
    let low = UnorderedCfg::low_latency();
    assert_eq!(low.send_queue.get(), 64);
    assert_eq!(low.load_balance, LoadBalanceStrategy::FastestFirst);
    assert_eq!(low.link_timeout.as_millis(), 200);
    assert_eq!(low.max_packet_size, 1200);
    assert_eq!(low.connect_queue.get(), 16);
    let high = UnorderedCfg::high_throughput();
    assert_eq!(high.recv_queue.get(), 1024);
    assert_eq!(high.load_balance, LoadBalanceStrategy::WeightedByBandwidth);
    assert_eq!(high.link_timeout.as_millis(), 1000);
    assert_eq!(high.max_packet_size, 8192);
    let bad = UnorderedCfg::unreliable_network();
    assert_eq!(bad.load_balance, LoadBalanceStrategy::DynamicAdaptive);
    assert_eq!(bad.link_timeout.as_millis(), 150);
    assert_eq!(bad.send_queue.get(), 256);
}

#[test]
fn validation_messages() {
    let mut cfg = UnorderedCfg::default();
    cfg.heartbeat_interval = cfg.link_timeout;
    cfg.max_packet_size = 1;
    assert_eq!(cfg.validate(), Err("heartbeat_interval must be less than link_timeout".to_string()));
    cfg = UnorderedCfg::default();
    cfg.max_packet_size = 63;
    assert_eq!(cfg.validate(), Err("max_packet_size must be at least 64 bytes".to_string()));
    cfg.max_packet_size = 64;
    assert_eq!(cfg.validate(), Ok(()));
    cfg.max_packet_size = 65507;
    assert_eq!(cfg.validate(), Ok(()));
    cfg.max_packet_size = 65508;
    assert_eq!(cfg.validate(), Err("max_packet_size cannot exceed 65507 bytes (standard limit)".to_string()));
    cfg = UnorderedCfg::default();
    cfg.stats_intervals.clear();
    assert_eq!(cfg.validate(), Err("at least one stats interval must be specified".to_string()));
}

#[test]
fn non_zero_numbers() {
    assert!(NonZeroUsize::new(0).is_none());
    assert_eq!(NonZeroUsize::new(7).unwrap().get(), 7);
}
