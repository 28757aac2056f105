use std::time::Duration;
use tix_core::rdp::control::{
    decode_port, encode_port, frame_input, read_input_header, InputKind,
};
use tix_core::rdp::service::{adjustment_due, frame_interval, pace, should_transmit, ArrivalWindow};
use tix_core::rdp::{Block, DeltaFrame, ScreenServiceConfig};
use tix_core::ConnectionInfo;

#[test]
fn connection_info_formats_as_socket_address() {
    let info = ConnectionInfo::new("127.0.0.1".to_string(), 4321);
    assert_eq!(info.ip(), "127.0.0.1");
    assert_eq!(info.port(), 4321);
    assert_eq!(info.to_socket_string(), "127.0.0.1:4321");
    assert_eq!(info.clone().to_string(), "127.0.0.1:4321");
    assert_eq!(ConnectionInfo::new("::1".to_string(), 0).to_socket_string(), "::1:0");
    assert_eq!(
        ConnectionInfo::new("h".to_string(), 65535).to_socket_string(),
        "h:65535"
    );
}

#[test]
fn input_frames_are_tag_length_payload() {
    assert_eq!(frame_input(0, &[9, 8, 7]), vec![0, 3, 0, 9, 8, 7]);
    assert_eq!(frame_input(1, &[]), vec![1, 0, 0]);
    let big = vec![5u8; 300];
    let framed = frame_input(1, &big);
    assert_eq!(&framed[..3], &[1, 0x2C, 0x01]);
    assert_eq!(framed.len(), 303);
    assert_eq!(read_input_header(&[0, 3, 0]), (InputKind::Mouse, 3));
    assert_eq!(read_input_header(&[1, 0x2C, 0x01]), (InputKind::Key, 300));
    assert_eq!(read_input_header(&[7, 0xFF, 0xFF]), (InputKind::Unknown(7), 65535));
    assert_eq!(InputKind::from_tag(2), InputKind::Unknown(2));
}

#[test]
fn ports_travel_as_two_little_endian_bytes() {
    assert_eq!(encode_port(7331), vec![0xA3, 0x1C]);
    assert_eq!(decode_port(&[0xA3, 0x1C]), Some(7331));
    assert_eq!(decode_port(&[0xA3, 0x1C, 0xFF]), Some(7331));
    assert_eq!(decode_port(&[0xA3]), None);
    assert_eq!(decode_port(&[]), None);
    assert_eq!(decode_port(&encode_port(65535)), Some(65535));
}

#[test]
fn service_decisions() {
    assert_eq!(frame_interval(60), Duration::from_nanos(16_666_666));
    assert_eq!(frame_interval(1), Duration::from_secs(1));
    assert_eq!(frame_interval(30), Duration::from_nanos(33_333_333));
    assert_eq!(
        pace(&Duration::from_millis(4), &Duration::from_millis(16)),
        Some(Duration::from_millis(12))
    );
    assert_eq!(pace(&Duration::from_millis(16), &Duration::from_millis(16)), None);
    assert_eq!(pace(&Duration::from_millis(20), &Duration::from_millis(16)), None);
    assert!(!adjustment_due(&Duration::from_secs(1)));
    assert!(adjustment_due(&Duration::from_millis(1001)));
    let mut delta = DeltaFrame {
        frame_number: 0,
        timestamp: std::time::Instant::now(),
        width: 1,
        height: 1,
        changed_blocks: Vec::new(),
        full_frame: false,
    };
    assert!(!should_transmit(&delta));
    delta.changed_blocks.push(Block { x: 0, y: 0, width: 1, height: 1 });
    assert!(should_transmit(&delta));
    delta.changed_blocks.clear();
    delta.full_frame = true;
    assert!(should_transmit(&delta));
    let cfg = ScreenServiceConfig::default();
    assert_eq!(cfg.target_fps, 60);
    assert_eq!(cfg.block_size, 64);
    assert_eq!(cfg.target_bandwidth, 100 * 1024 * 1024);
    assert_eq!(cfg.monitor_index, 0);
    assert_eq!(cfg.capture_timeout_ms, 100);
}

#[test]
fn arrival_window_keeps_the_last_sixty() {
    let mut w = ArrivalWindow::new();
    assert_eq!(w.average_nanos(), None);
    w.push(10);
    w.push(21);
    assert_eq!(w.average_nanos(), Some(15));
    for _ in 0..60 {
        w.push(100);
    }
    assert_eq!(w.len(), 60);
    assert_eq!(w.average_nanos(), Some(100));
    let mut big = ArrivalWindow::new();
    big.push(u64::MAX);
    big.push(u64::MAX);
    assert_eq!(big.average_nanos(), Some(u64::MAX));
}
