use tix_core::{
    Command, MessageType, Packet, ProtocolFlags, TixError, HEADER_SIZE, MAX_FRAME_SIZE,
    MAX_PAYLOAD_SIZE,
};

#[test]
fn heartbeat_is_empty() {
    let pkt = Packet::heartbeat();
    assert!(pkt.payload().is_empty());
    assert_eq!(pkt.request_id(), 0);
    assert!(pkt.validate_checksum());
}

#[test]
fn packet_command_roundtrip() {
    let payload = b"hello world".to_vec();
    let pkt = Packet::new_command(1, Command::ShellExecute, payload.clone()).unwrap();

    let bytes = pkt.to_bytes().unwrap();
    let decoded = Packet::from_bytes(&bytes).unwrap();

    assert_eq!(decoded.message_type(), MessageType::Command);
    assert_eq!(decoded.command().unwrap(), Command::ShellExecute);
    assert_eq!(decoded.request_id(), 1);
    assert_eq!(decoded.payload(), payload.as_slice());
    assert!(decoded.validate_checksum());
}

#[test]
fn response_roundtrip() {
    let payload = b"result data".to_vec();
    let pkt = Packet::new_response(7, Command::ListDir, payload.clone()).unwrap();

    let bytes = pkt.to_bytes().unwrap();
    let decoded = Packet::from_bytes(&bytes).unwrap();

    assert_eq!(decoded.message_type(), MessageType::Response);
    assert_eq!(decoded.command().unwrap(), Command::ListDir);
    assert_eq!(decoded.request_id(), 7);
    assert_eq!(decoded.payload(), payload.as_slice());
    assert!(decoded.validate_checksum());
}

#[test]
fn payload_too_large() {
    let big = vec![0u8; MAX_PAYLOAD_SIZE + 1];
    let err = Packet::new_command(1, Command::Ping, big).unwrap_err();
    assert!(matches!(err, TixError::PayloadTooLarge { .. }));
}

#[test]
fn tampered_payload_fails_validation() {
    let pkt = Packet::new_command(1, Command::ShellExecute, b"data".to_vec()).unwrap();
    let mut bytes = pkt.to_bytes().unwrap();
    // Tamper with the last payload byte
    let last = bytes.len() - 1;
    bytes[last] ^= 0xFF;
    // the hash of the payload is computed on decoding: the frame is refused
    assert!(matches!(Packet::from_bytes(&bytes), Err(TixError::ChecksumMismatch)));
}

#[test]
fn empty_payload_command() {
    let pkt = Packet::new_command(5, Command::Ping, Vec::new()).unwrap();
    assert!(pkt.validate_checksum());
    let bytes = pkt.to_bytes().unwrap();
    assert_eq!(bytes.len(), HEADER_SIZE);
}

#[test]
fn ping_frame_bytes() {
    let pkt = Packet::new_command(1, Command::Ping, Vec::new()).unwrap();
    let bytes = pkt.to_bytes().unwrap();
    assert_eq!(bytes.len(), 64);
    assert_eq!(&bytes[0..4], b"TIX1");
    assert_eq!(u64::from_le_bytes(bytes[48..56].try_into().unwrap()), 1);
    assert_eq!(&bytes[56..64], &[0u8; 8]);
    assert!(bytes[4..36].iter().all(|&b| b == 0));
}

#[test]
fn trailing_byte_is_a_length_error() {
    let payload = b"test payload data".to_vec();
    let pkt = Packet::new_command(42, Command::ShellExecute, payload).unwrap();
    let mut bytes = pkt.to_bytes().unwrap();
    bytes.push(0x5A);
    let prefix = Packet::from_bytes(&bytes[..64 + 17]).unwrap();
    assert!(prefix.validate_checksum());
    match Packet::from_bytes(&bytes) {
        Err(TixError::InvalidPacketLength { expected, actual }) => {
            assert_eq!(expected, 81);
            assert_eq!(actual, 82);
        }
        _ => panic!("expected InvalidPacketLength"),
    }
}

#[test]
fn checksum_is_blake3_of_payload() {
    let payload = b"hello world".to_vec();
    let pkt = Packet::new_response(3, Command::FileRead, payload.clone()).unwrap();
    assert_eq!(pkt.checksum(), blake3::hash(&payload).as_bytes());
    assert_ne!(pkt.checksum(), &[0u8; 32]);
    let empty = Packet::new_response(3, Command::FileRead, Vec::new()).unwrap();
    assert_eq!(empty.checksum(), &[0u8; 32]);
    assert_eq!(Packet::heartbeat().checksum(), &[0u8; 32]);
}

#[test]
fn bit_flip_in_payload_breaks_the_checksum() {
    let pkt = Packet::new_command(9, Command::Upload, vec![0x55; 64]).unwrap();
    let bytes = pkt.to_bytes().unwrap();
    for bit in 0..8 {
        let mut tampered = bytes.clone();
        tampered[64 + 10] ^= 1 << bit;
        assert!(matches!(Packet::from_bytes(&tampered), Err(TixError::ChecksumMismatch)));
    }
    // a flipped bit in the checksum itself
    for at in [4usize, 20, 35] {
        let mut tampered = bytes.clone();
        tampered[at] ^= 0x80;
        assert!(matches!(Packet::from_bytes(&tampered), Err(TixError::ChecksumMismatch)));
    }
    // an all-zero checksum over a payload
    let mut zeroed = bytes.clone();
    for b in &mut zeroed[4..36] {
        *b = 0;
    }
    assert!(matches!(Packet::from_bytes(&zeroed), Err(TixError::ChecksumMismatch)));
    // the framing is looked at first
    let mut longer = bytes.clone();
    longer[64] ^= 1;
    longer.push(0);
    assert!(matches!(Packet::from_bytes(&longer), Err(TixError::InvalidPacketLength { .. })));
    // what decodes validates
    let decoded = Packet::from_bytes(&bytes).unwrap();
    assert!(decoded.validate_checksum());
    assert_eq!(decoded.payload(), pkt.payload());
    // without a payload the checksum is not looked at
    let mut empty = Packet::new_command(9, Command::Ping, Vec::new()).unwrap().to_bytes().unwrap();
    empty[4] = 1;
    assert!(Packet::from_bytes(&empty).unwrap().validate_checksum());
}

#[test]
fn decode_rejects_in_the_order_of_the_wire_rules() {
    // shorter than a header
    assert!(matches!(
        Packet::from_bytes(&[0u8; 10]),
        Err(TixError::InvalidPacketLength { expected: 64, actual: 10 })
    ));
    // bad magic, whatever the rest
    let mut frame = Packet::heartbeat().to_bytes().unwrap();
    frame[0] = b'X';
    assert!(matches!(Packet::from_bytes(&frame), Err(TixError::InvalidMagic)));
    // declared length over the limit, however many bytes are there
    let mut frame = Packet::heartbeat().to_bytes().unwrap();
    frame[56..64].copy_from_slice(&((MAX_PAYLOAD_SIZE as u64) + 1).to_le_bytes());
    match Packet::from_bytes(&frame) {
        Err(TixError::PayloadTooLarge { size, max }) => {
            assert_eq!(size, MAX_PAYLOAD_SIZE + 1);
            assert_eq!(max, MAX_PAYLOAD_SIZE);
        }
        _ => panic!("expected PayloadTooLarge"),
    }
    frame.extend_from_slice(&[0u8; 100]);
    assert!(matches!(
        Packet::from_bytes(&frame),
        Err(TixError::PayloadTooLarge { .. })
    ));
    // declared length that the bytes do not have
    let mut frame = Packet::heartbeat().to_bytes().unwrap();
    frame[56] = 5;
    assert!(matches!(
        Packet::from_bytes(&frame),
        Err(TixError::InvalidPacketLength { expected: 69, actual: 64 })
    ));
}

#[test]
fn limits() {
    assert_eq!(MAX_PAYLOAD_SIZE, 256 * 1024);
    assert_eq!(MAX_FRAME_SIZE, 64 + 256 * 1024);
    let pkt = Packet::new_command(1, Command::FileWrite, vec![7u8; MAX_PAYLOAD_SIZE]).unwrap();
    assert_eq!(pkt.payload_length(), MAX_PAYLOAD_SIZE as u64);
    assert_eq!(pkt.to_bytes().unwrap().len(), MAX_FRAME_SIZE);
    match Packet::new_response(1, Command::FileWrite, vec![7u8; MAX_PAYLOAD_SIZE + 1]) {
        Err(TixError::PayloadTooLarge { size, max }) => {
            assert_eq!(size, MAX_PAYLOAD_SIZE + 1);
            assert_eq!(max, MAX_PAYLOAD_SIZE);
        }
        _ => panic!("expected PayloadTooLarge"),
    }
}

#[test]
fn flags_and_type_survive_the_wire() {
    let pkt = Packet::new_response_with_flags(
        77,
        Command::ShellExecute,
        b"chunk".to_vec(),
        ProtocolFlags::streaming(),
    )
    .unwrap();
    let back = Packet::from_bytes(&pkt.to_bytes().unwrap()).unwrap();
    assert_eq!(back.message_type(), MessageType::Response);
    assert_eq!(back.flags(), ProtocolFlags::streaming());
    assert_eq!(back.header().request_id(), 77);
    assert_eq!(back.checksum(), pkt.checksum());
    let cmd = Packet::new_command_with_flags(
        78,
        Command::FileRead,
        Vec::new(),
        ProtocolFlags::ack_requested(),
    )
    .unwrap();
    let back = Packet::from_bytes(&cmd.clone().to_bytes().unwrap()).unwrap();
    assert_eq!(back.message_type(), MessageType::Command);
    assert!(back.flags().contains(ProtocolFlags::ack_requested()));
}

#[test]
fn heartbeats_are_uncorrelated() {
    assert!(Packet::heartbeat().is_uncorrelated());
    assert_eq!(Packet::heartbeat().command().unwrap(), Command::Heartbeat);
    assert!(!Packet::heartbeat().command().unwrap().expects_response());
    assert!(!Packet::new_command(1, Command::Ping, Vec::new()).unwrap().is_uncorrelated());
    assert_eq!(tix_core::network::QUEUE_CAPACITY, 128);
    assert_eq!(tix_core::network::HEARTBEAT_INTERVAL_SECS, 5);
    assert_eq!(tix_core::task::EVENT_QUEUE_CAPACITY, 1024);
}
