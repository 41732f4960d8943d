use std::time::Duration;
use tokio_kcp::error::{ConfigError, ErrorKind};
use tokio_kcp::utils::{as_millis_u64, epoch_millis, now_millis_u64};
use tokio_kcp::{KcpConfig, KcpFecConfig, KcpNoDelayConfig};

#[test]
fn defaults() {
    let config = KcpConfig::default();
    assert_eq!(config.mtu, 1400);
    assert_eq!(config.wnd_size, (256, 256));
    assert_eq!(config.session_expire, Some(Duration::from_secs(90)));
    assert_eq!(config.nodelay.interval, 40);
    assert!(!config.flush_write && !config.flush_acks_input && !config.stream);
    assert!(!config.allow_recv_empty_packet);
    assert!(!config.fec.enabled());
    assert!(config.validate().is_ok());
    let nodelay = KcpNoDelayConfig::default();
    assert_eq!((nodelay.nodelay, nodelay.interval, nodelay.resend, nodelay.nc), (false, 100, 0, false));
    let fastest = KcpNoDelayConfig::fastest();
    assert_eq!((fastest.nodelay, fastest.interval, fastest.resend, fastest.nc), (true, 10, 2, true));
}

#[test]
fn shards_are_validated() {
    assert!(KcpFecConfig::disabled().validate().is_ok());
    assert!(!KcpFecConfig::disabled().enabled());
    assert!(KcpFecConfig::new(10, 3).validate().is_ok());
    assert!(KcpFecConfig::new(10, 3).enabled());
    assert!(KcpFecConfig::new(200, 56).validate().is_ok());
    for (data, parity) in [(1, 0), (0, 1), (200, 57), (257, 1)] {
        assert_eq!(KcpFecConfig::new(data, parity).validate(), Err(ConfigError::InvalidShards));
    }
}

#[test]
fn packet_size_is_validated() {
    let sized = |mtu: usize| KcpConfig { mtu, ..KcpConfig::default() };
    assert_eq!(sized(49).validate(), Err(ConfigError::InvalidMtu));
    assert!(sized(50).validate().is_ok());
    assert_eq!(sized(7).with_fec(2, 1).validate(), Err(ConfigError::MtuTooSmallForFec));
    assert_eq!(sized(57).with_fec(2, 1).validate(), Err(ConfigError::InvalidMtu));
    assert!(sized(58).with_fec(2, 1).validate().is_ok());
    assert_eq!(ConfigError::InvalidMtu.kind(), ErrorKind::InvalidInput);
}

#[test]
fn clock_is_read_in_milliseconds() {
    let epoch = std::time::UNIX_EPOCH;
    assert_eq!(epoch_millis(epoch + Duration::from_micros(1_234_567)), Some(1234));
    assert_eq!(epoch_millis(epoch - Duration::from_nanos(1)), None);
    assert_eq!(as_millis_u64(&Duration::from_micros(2999)), 2);
    assert!(now_millis_u64().unwrap() > 1_000_000_000_000);
}
