use bytes::BytesMut;
use tix_core::{Command, Packet, TixCodec, TixError, MAX_FRAME_SIZE};

#[test]
fn decode_requires_full_header() {
    let mut codec = TixCodec;
    let mut buf = BytesMut::from(&[0u8; 10][..]);
    assert!(codec.decode(&mut buf).unwrap().is_none());
}

#[test]
fn roundtrip_through_codec() {
    let mut codec = TixCodec;
    let pkt = Packet::new_command(1, Command::Ping, Vec::new()).unwrap();

    let mut buf = BytesMut::new();
    codec.encode(pkt.clone(), &mut buf).unwrap();

    let decoded = codec.decode(&mut buf).unwrap().unwrap();
    assert_eq!(decoded.command().unwrap(), Command::Ping);
    assert_eq!(decoded.request_id(), 1);
}

#[test]
fn roundtrip_with_payload() {
    let mut codec = TixCodec;
    let payload = b"test payload data".to_vec();
    let pkt = Packet::new_command(42, Command::ShellExecute, payload.clone()).unwrap();

    let mut buf = BytesMut::new();
    codec.encode(pkt, &mut buf).unwrap();

    let decoded = codec.decode(&mut buf).unwrap().unwrap();
    assert_eq!(decoded.payload(), payload.as_slice());
    assert!(decoded.validate_checksum());
}

#[test]
fn partial_frames_stay_in_the_buffer() {
    let mut codec = TixCodec;
    let first = Packet::new_command(1, Command::ShellExecute, b"first".to_vec()).unwrap();
    let second = Packet::new_response(2, Command::ListDir, b"second frame".to_vec()).unwrap();
    let mut wire = first.to_bytes().unwrap();
    wire.extend_from_slice(&second.to_bytes().unwrap());

    let mut buf = BytesMut::new();
    let mut seen = Vec::new();
    // feed the stream a few bytes at a time
    for piece in wire.chunks(7) {
        buf.extend_from_slice(piece);
        let before = buf.to_vec();
        match codec.decode(&mut buf).unwrap() {
            Some(p) => seen.push(p),
            None => assert_eq!(buf.to_vec(), before),
        }
    }
    while let Some(p) = codec.decode(&mut buf).unwrap() {
        seen.push(p);
    }
    assert_eq!(seen.len(), 2);
    assert_eq!(seen[0].request_id(), 1);
    assert_eq!(seen[0].payload(), b"first");
    assert_eq!(seen[1].request_id(), 2);
    assert_eq!(seen[1].payload(), b"second frame");
    assert!(buf.is_empty());
}

#[test]
fn one_packet_for_each_call_and_the_rest_untouched() {
    let mut codec = TixCodec;
    let a = Packet::new_command(1, Command::Ping, Vec::new()).unwrap();
    let b = Packet::new_command(2, Command::Hello, b"hi".to_vec()).unwrap();
    let mut buf = BytesMut::new();
    codec.encode(a, &mut buf).unwrap();
    codec.encode(b.clone(), &mut buf).unwrap();
    buf.extend_from_slice(b"TIX1 and the start of a third");
    let got = codec.decode(&mut buf).unwrap().unwrap();
    assert_eq!(got.request_id(), 1);
    let mut rest = b.to_bytes().unwrap();
    rest.extend_from_slice(b"TIX1 and the start of a third");
    assert_eq!(buf.to_vec(), rest);
    let got = codec.decode(&mut buf).unwrap().unwrap();
    assert_eq!(got.request_id(), 2);
    assert_eq!(buf.to_vec(), b"TIX1 and the start of a third".to_vec());
    assert!(codec.decode(&mut buf).unwrap().is_none());
    assert_eq!(buf.to_vec(), b"TIX1 and the start of a third".to_vec());
}

#[test]
fn codec_errors() {
    let mut codec = TixCodec;
    // more than a frame can hold
    let mut buf = BytesMut::from(&vec![0u8; MAX_FRAME_SIZE + 1][..]);
    match codec.decode(&mut buf) {
        Err(TixError::FrameTooLarge { size, max }) => {
            assert_eq!(size, MAX_FRAME_SIZE + 1);
            assert_eq!(max, MAX_FRAME_SIZE);
        }
        _ => panic!("expected FrameTooLarge"),
    }
    // bad magic
    let mut buf = BytesMut::from(&[0u8; 64][..]);
    assert!(matches!(codec.decode(&mut buf), Err(TixError::InvalidMagic)));
    assert_eq!(buf.len(), 64);
    // declared payload over the limit
    let mut frame = Packet::heartbeat().to_bytes().unwrap();
    frame[56..64].copy_from_slice(&(300_000u64).to_le_bytes());
    let mut buf = BytesMut::from(&frame[..]);
    assert!(matches!(
        codec.decode(&mut buf),
        Err(TixError::PayloadTooLarge { size: 300_000, max: 262_144 })
    ));
    // a payload with an all-zero checksum
    let mut frame = Packet::heartbeat().to_bytes().unwrap();
    frame[56] = 3;
    let mut buf = BytesMut::from(&frame[..]);
    assert!(matches!(
        codec.decode(&mut buf),
        Err(TixError::ProtocolViolation(_))
    ));
    assert_eq!(buf.len(), 64);
    // a payload that does not match its checksum
    let mut frame = Packet::new_command(1, Command::Copy, b"abc".to_vec())
        .unwrap()
        .to_bytes()
        .unwrap();
    frame[66] ^= 1;
    let mut buf = BytesMut::from(&frame[..]);
    assert!(matches!(codec.decode(&mut buf), Err(TixError::ChecksumMismatch)));
    // the legacy magic decodes
    let mut frame = Packet::new_command(5, Command::Copy, b"abc".to_vec())
        .unwrap()
        .to_bytes()
        .unwrap();
    frame[3] = b'0';
    let mut buf = BytesMut::from(&frame[..]);
    assert_eq!(codec.decode(&mut buf).unwrap().unwrap().request_id(), 5);
}
