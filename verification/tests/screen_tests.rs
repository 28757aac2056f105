use tix_core::protocol::screen::key_modifiers;
use tix_core::protocol::screen::{
    CaptureRegion, CursorInfo, ImageFormat, KeyAction, KeyEvent, MouseButton, MouseEvent,
    MouseEventKind, ScreenConfig, ScreenFrame, ScreenStartRequest, ScreenStopRequest,
};
use tix_core::{Command, MessageType, ProtocolFlags, TixError};

#[test]
fn screen_start_request_roundtrip() {
    let req = ScreenStartRequest::new()
        .with_quality(90)
        .with_fps(60)
        .with_format(ImageFormat::Png);

    let bytes = req.to_bytes().unwrap();
    let decoded = ScreenStartRequest::from_bytes(&bytes).unwrap();
    assert_eq!(req, decoded);
    assert_eq!(decoded.quality, 90);
    assert_eq!(decoded.fps, 60);
    assert_eq!(decoded.format, ImageFormat::Png);
}

#[test]
fn screen_start_with_region() {
    let req = ScreenStartRequest::new().with_region(CaptureRegion::new(100, 200, 800, 600));

    let bytes = req.to_bytes().unwrap();
    let decoded = ScreenStartRequest::from_bytes(&bytes).unwrap();
    let region = decoded.region.unwrap();
    assert_eq!(region.x, 100);
    assert_eq!(region.y, 200);
    assert_eq!(region.width, 800);
    assert_eq!(region.height, 600);
}

#[test]
fn screen_config_roundtrip() {
    let config = ScreenConfig {
        width: 1920,
        height: 1080,
        quality: 75,
        fps: 30,
        format: ImageFormat::Jpeg,
        monitor_name: "Primary".to_string(),
    };

    let bytes = config.to_bytes().unwrap();
    let decoded = ScreenConfig::from_bytes(&bytes).unwrap();
    assert_eq!(config, decoded);
}

#[test]
fn screen_frame_roundtrip() {
    let frame = ScreenFrame {
        frame_number: 42,
        timestamp_us: 1_000_000,
        width: 1920,
        height: 1080,
        format: ImageFormat::Jpeg,
        data: vec![0xFF; 100],
        cursor: Some(CursorInfo::new(960, 540, true)),
        is_delta: false,
    };

    let bytes = frame.to_bytes().unwrap();
    let decoded = ScreenFrame::from_bytes(&bytes).unwrap();
    assert_eq!(frame, decoded);
    assert_eq!(decoded.cursor.unwrap().x, 960);
}

#[test]
fn mouse_event_roundtrip() {
    let events = vec![
        MouseEvent::move_to(100, 200),
        MouseEvent::press(100, 200, MouseButton::Left),
        MouseEvent::release(100, 200, MouseButton::Left),
        MouseEvent::scroll(100, 200, -120),
    ];

    for event in events {
        let bytes = event.to_bytes().unwrap();
        let decoded = MouseEvent::from_bytes(&bytes).unwrap();
        assert_eq!(event, decoded);
    }
}

#[test]
fn key_event_roundtrip() {
    let event = KeyEvent::press(0x41, 0x1E, key_modifiers::SHIFT | key_modifiers::CTRL);
    let bytes = event.to_bytes().unwrap();
    let decoded = KeyEvent::from_bytes(&bytes).unwrap();

    assert_eq!(event, decoded);
    assert!(decoded.has_modifier(key_modifiers::SHIFT));
    assert!(decoded.has_modifier(key_modifiers::CTRL));
    assert!(!decoded.has_modifier(key_modifiers::ALT));
}

#[test]
fn screen_payloads_have_these_bytes() {
    // the variant of an enum travels as its number in four bytes
    assert_eq!(
        KeyEvent::release(0x41, 0x1E, key_modifiers::ALT).to_bytes().unwrap(),
        vec![0x41, 0, 0x1E, 0, 1, 0, 0, 0, key_modifiers::ALT]
    );
    assert_eq!(
        MouseEvent::press(1, -1, MouseButton::X2).to_bytes().unwrap(),
        vec![1, 0, 0, 0, 0xFF, 0xFF, 0xFF, 0xFF, 1, 0, 0, 0, 5, 0, 0, 0, 0, 0]
    );
    assert_eq!(
        MouseEvent::scroll(0, 0, -2).to_bytes().unwrap(),
        vec![0, 0, 0, 0, 0, 0, 0, 0, 3, 0, 0, 0, 0, 0, 0, 0, 0xFE, 0xFF]
    );
    // an optional region behind one byte
    let plain = ScreenStartRequest::new().with_format(ImageFormat::RawRgb);
    assert_eq!(plain.to_bytes().unwrap(), vec![75, 30, 0, 3, 0, 0, 0, 1, 0]);
    let cut = ScreenStartRequest::new().with_region(CaptureRegion::new(1, 2, 3, 4));
    assert_eq!(
        cut.to_bytes().unwrap(),
        vec![75, 30, 1, 1, 0, 0, 0, 2, 0, 0, 0, 3, 0, 0, 0, 4, 0, 0, 0, 0, 0, 0, 0, 1, 0]
    );
    // every variant has its own number
    for (format, index) in [
        (ImageFormat::Jpeg, 0u32),
        (ImageFormat::Png, 1),
        (ImageFormat::RawBgra, 2),
        (ImageFormat::RawRgb, 3),
    ] {
        assert_eq!(format.index(), index);
        assert_eq!(ImageFormat::from_index(index), Some(format));
    }
    assert_eq!(ImageFormat::from_index(4), None);
    assert_eq!(MouseEventKind::DoubleClick.index(), 4);
    assert_eq!(MouseEventKind::from_index(5), None);
    assert_eq!(MouseButton::from_index(0), Some(MouseButton::NoButton));
    assert_eq!(MouseButton::from_index(6), None);
    assert_eq!(KeyAction::from_index(0), Some(KeyAction::Press));
    assert_eq!(KeyAction::from_index(2), None);
}

#[test]
fn bytes_that_are_no_screen_payload_are_refused() {
    assert!(matches!(KeyEvent::from_bytes(&[0; 8]), Err(TixError::Encoding(_))));
    assert!(matches!(MouseEvent::from_bytes(&[]), Err(TixError::Encoding(_))));
    // a variant that there is not
    let mut bytes = KeyEvent::press(1, 2, 0).to_bytes().unwrap();
    bytes[4] = 2;
    assert!(matches!(KeyEvent::from_bytes(&bytes), Err(TixError::Encoding(_))));
    let mut bytes = MouseEvent::move_to(1, 2).to_bytes().unwrap();
    bytes[8] = 5;
    assert!(matches!(MouseEvent::from_bytes(&bytes), Err(TixError::Encoding(_))));
    let mut bytes = MouseEvent::move_to(1, 2).to_bytes().unwrap();
    bytes[12] = 6;
    assert!(matches!(MouseEvent::from_bytes(&bytes), Err(TixError::Encoding(_))));
    let mut bytes = ScreenStartRequest::new().to_bytes().unwrap();
    bytes[3] = 4;
    assert!(matches!(ScreenStartRequest::from_bytes(&bytes), Err(TixError::Encoding(_))));
    // a frame cut short
    let frame = ScreenFrame {
        frame_number: 0,
        timestamp_us: 0,
        width: 1,
        height: 1,
        format: ImageFormat::RawBgra,
        data: vec![0; 4],
        cursor: None,
        is_delta: true,
    };
    let bytes = frame.to_bytes().unwrap();
    assert!(matches!(
        ScreenFrame::from_bytes(&bytes[..bytes.len() - 1]),
        Err(TixError::Encoding(_))
    ));
}

#[test]
fn key_event_release() {
    let event = KeyEvent::release(0x41, 0x1E, key_modifiers::NONE);
    assert_eq!(event.action, KeyAction::Release);
    assert!(!event.has_modifier(key_modifiers::SHIFT));
}

#[test]
fn screen_start_into_packet() {
    let req = ScreenStartRequest::new().with_quality(50);
    let packet = req.into_packet(7).unwrap();

    assert_eq!(packet.command().unwrap(), Command::ScreenStart);
    assert_eq!(packet.request_id(), 7);

    let decoded = ScreenStartRequest::from_bytes(packet.payload()).unwrap();
    assert_eq!(decoded.quality, 50);
}

#[test]
fn mouse_event_into_packet() {
    let event = MouseEvent::press(500, 300, MouseButton::Left);
    let packet = event.into_packet(10).unwrap();
    assert_eq!(packet.command().unwrap(), Command::InputMouse);
}

#[test]
fn key_event_into_packet() {
    let event = KeyEvent::press(0x0D, 0x1C, key_modifiers::NONE); // Enter key
    let packet = event.into_packet(11).unwrap();
    assert_eq!(packet.command().unwrap(), Command::InputKeyboard);
}

#[test]
fn fps_clamped() {
    let req = ScreenStartRequest::new().with_fps(200);
    assert_eq!(req.fps, 60);

    let req = ScreenStartRequest::new().with_fps(0);
    assert_eq!(req.fps, 1);
}

#[test]
fn quality_clamped() {
    let req = ScreenStartRequest::new().with_quality(255);
    assert_eq!(req.quality, 100);
}

#[test]
fn image_format_display() {
    assert_eq!(ImageFormat::Jpeg.to_string(), "jpeg");
    assert_eq!(ImageFormat::Png.to_string(), "png");
    assert_eq!(ImageFormat::RawBgra.to_string(), "raw_bgra");
}

#[test]
fn screen_defaults() {
    let req = ScreenStartRequest::new();
    assert_eq!(req, ScreenStartRequest::default());
    assert_eq!(req.quality, 75);
    assert_eq!(req.fps, 30);
    assert!(req.region.is_none());
    assert_eq!(req.format, ImageFormat::Jpeg);
    assert_eq!(ImageFormat::default(), ImageFormat::Jpeg);
    assert!(req.include_cursor);
    assert_eq!(req.monitor, 0);
    assert_eq!(ImageFormat::RawRgb.to_string(), "raw_rgb");
    assert_eq!(
        CaptureRegion::full_screen(800, 600),
        CaptureRegion::new(0, 0, 800, 600)
    );
    assert_eq!(ScreenStartRequest::new().with_fps(60).fps, 60);
    assert_eq!(ScreenStartRequest::new().with_fps(1).fps, 1);
    assert_eq!(ScreenStartRequest::new().with_quality(100).quality, 100);
    assert_eq!(ScreenStartRequest::new().with_quality(0).quality, 0);
}

#[test]
fn screen_packets_carry_their_flags() {
    let stop = ScreenStopRequest.into_packet(3).unwrap();
    assert_eq!(stop.command().unwrap(), Command::ScreenStop);
    assert_eq!(stop.message_type(), MessageType::Command);
    assert!(stop.payload().is_empty());

    let config = ScreenConfig {
        width: 1,
        height: 1,
        quality: 1,
        fps: 1,
        format: ImageFormat::Png,
        monitor_name: String::new(),
    };
    let p = config.clone().into_packet(3).unwrap();
    assert_eq!(ScreenConfig::from_bytes(p.payload()).unwrap(), config);
    assert_eq!(p.command().unwrap(), Command::ScreenStart);
    assert_eq!(p.message_type(), MessageType::Response);
    assert_eq!(p.flags(), ProtocolFlags::none());

    let frame = ScreenFrame {
        frame_number: 0,
        timestamp_us: 0,
        width: 1,
        height: 1,
        format: ImageFormat::RawBgra,
        data: vec![0; 4],
        cursor: None,
        is_delta: true,
    };
    let p = frame.clone().into_packet(3).unwrap();
    assert_eq!(ScreenFrame::from_bytes(p.payload()).unwrap(), frame);
    assert_eq!(p.command().unwrap(), Command::ScreenFrame);
    assert_eq!(p.message_type(), MessageType::Response);
    assert_eq!(p.flags(), ProtocolFlags::streaming());
}

#[test]
fn mouse_constructors() {
    let m = MouseEvent::move_to(1, 2);
    assert_eq!(m.kind, MouseEventKind::Move);
    assert_eq!(m.button, MouseButton::NoButton);
    let s = MouseEvent::scroll(1, 2, -120);
    assert_eq!(s.kind, MouseEventKind::Scroll);
    assert_eq!(s.scroll_delta, -120);
    let r = MouseEvent::release(4, 5, MouseButton::Right);
    assert_eq!(r.kind, MouseEventKind::Release);
    assert_eq!((r.x, r.y), (4, 5));
    assert_eq!(key_modifiers::META, 0x08);
    assert!(KeyEvent::press(1, 1, key_modifiers::ALT | key_modifiers::META)
        .has_modifier(key_modifiers::META));
}

#[test]
fn records_of_fixed_width_are_read_from_their_first_bytes() {
    let event = KeyEvent::press(0x1234, 0x5678, key_modifiers::CTRL);
    let mut bytes = event.to_bytes().unwrap();
    assert_eq!(bytes.len(), 9);
    bytes.extend_from_slice(&[9, 9, 9]);
    assert_eq!(KeyEvent::from_bytes(&bytes).unwrap(), event);
    assert!(matches!(KeyEvent::from_bytes(&bytes[..8]), Err(TixError::Encoding(_))));

    let event = MouseEvent::scroll(i32::MIN, i32::MAX, i16::MIN);
    let mut bytes = event.to_bytes().unwrap();
    assert_eq!(bytes.len(), 18);
    assert_eq!(&bytes[0..4], &[0, 0, 0, 0x80]);
    assert_eq!(&bytes[4..8], &[0xFF, 0xFF, 0xFF, 0x7F]);
    assert_eq!(&bytes[16..18], &[0, 0x80]);
    bytes.push(1);
    assert_eq!(MouseEvent::from_bytes(&bytes).unwrap(), event);
    assert!(matches!(MouseEvent::from_bytes(&bytes[..17]), Err(TixError::Encoding(_))));
    assert_eq!(event.into_packet(1).unwrap().payload().len(), 18);
}
