use tix_core::header::{MAGIC, RESPONSE_BIT};
use tix_core::{Command, MessageType, PacketHeader, ProtocolFlags, TixError, HEADER_SIZE};

#[test]
fn header_size_is_64() {
    assert_eq!(HEADER_SIZE, 64);
}

#[test]
fn header_roundtrip() {
    let header = PacketHeader::new(
        MessageType::Command,
        Command::Ping,
        ProtocolFlags::none(),
        42,
        128,
    );
    let bytes = header.to_bytes();
    assert_eq!(bytes.len(), HEADER_SIZE);

    let parsed = PacketHeader::from_bytes(&bytes).unwrap();
    assert_eq!(parsed.message_type(), MessageType::Command);
    assert_eq!(parsed.command().unwrap(), Command::Ping);
    assert_eq!(parsed.request_id(), 42);
    assert_eq!(parsed.payload_length(), 128);
}

#[test]
fn response_flag() {
    let header = PacketHeader::new(
        MessageType::Response,
        Command::ShellExecute,
        ProtocolFlags::compressed(),
        10,
        256,
    );
    let bytes = header.to_bytes();
    let parsed = PacketHeader::from_bytes(&bytes).unwrap();
    assert_eq!(parsed.message_type(), MessageType::Response);
    assert_eq!(parsed.command().unwrap(), Command::ShellExecute);
    assert!(parsed.flags().contains(ProtocolFlags::compressed()));
}

#[test]
fn invalid_magic_rejected() {
    let mut bytes = [0u8; HEADER_SIZE];
    bytes[0..4].copy_from_slice(b"NOPE");
    assert!(PacketHeader::from_bytes(&bytes).is_err());
}

#[test]
fn too_short_rejected() {
    let bytes = [0u8; 10];
    assert!(PacketHeader::from_bytes(&bytes).is_err());
}

#[test]
fn header_layout_is_byte_exact() {
    let mut header = PacketHeader::new(
        MessageType::Response,
        Command::FileRead,
        ProtocolFlags::streaming() | ProtocolFlags::compressed(),
        0x0102_0304_0506_0708,
        0x1122,
    );
    header.set_checksum([0xAB; 32]);
    let bytes = header.to_bytes();
    assert_eq!(&bytes[0..4], b"TIX1");
    assert_eq!(&bytes[0..4], &MAGIC);
    assert_eq!(&bytes[4..36], &[0xAB; 32]);
    assert_eq!(&bytes[36..40], &[0x02, 0x02, 0x00, 0x00]);
    assert_eq!(&bytes[40..48], &[0x11, 0, 0, 0, 0, 0, 0, 0x80]);
    assert_eq!(&bytes[48..56], &[8, 7, 6, 5, 4, 3, 2, 1]);
    assert_eq!(&bytes[56..64], &[0x22, 0x11, 0, 0, 0, 0, 0, 0]);
    assert_eq!(RESPONSE_BIT, 1 << 63);
    assert_eq!(header.checksum(), &[0xAB; 32]);
}

#[test]
fn legacy_magic_is_accepted() {
    let header = PacketHeader::new(MessageType::Command, Command::Hello, ProtocolFlags::none(), 9, 0);
    let mut bytes = header.to_bytes();
    bytes[3] = b'0';
    let parsed = PacketHeader::from_bytes(&bytes).unwrap();
    assert_eq!(parsed.request_id(), 9);
    assert_eq!(parsed.command().unwrap(), Command::Hello);
    // written back with the magic it came with
    assert_eq!(&parsed.to_bytes()[0..4], b"TIX0");
}

#[test]
fn header_errors_are_distinct() {
    assert!(matches!(
        PacketHeader::from_bytes(&[0u8; 63]),
        Err(TixError::InvalidHeader(_))
    ));
    let mut bytes = [0u8; 64];
    bytes[0..4].copy_from_slice(b"TIX2");
    assert!(matches!(
        PacketHeader::from_bytes(&bytes),
        Err(TixError::InvalidMagic)
    ));
}

#[test]
fn response_marker_is_hidden_from_flags() {
    let header = PacketHeader::new(
        MessageType::Response,
        Command::Ping,
        ProtocolFlags::none(),
        1,
        0,
    );
    assert_eq!(header.flags().bits(), 0);
    assert_eq!(header.message_type(), MessageType::Response);
    let command = PacketHeader::new(
        MessageType::Command,
        Command::Ping,
        ProtocolFlags::from(u64::MAX),
        1,
        0,
    );
    assert_eq!(command.message_type(), MessageType::Command);
    assert_eq!(command.flags().bits(), 0x1F);
}

#[test]
fn unknown_command_code_fails_on_read() {
    let header = PacketHeader::new(MessageType::Command, Command::Ping, ProtocolFlags::none(), 1, 0);
    let mut bytes = header.to_bytes();
    bytes[36] = 0xEE;
    bytes[37] = 0xEE;
    let parsed = PacketHeader::from_bytes(&bytes).unwrap();
    assert!(matches!(
        parsed.command(),
        Err(TixError::UnknownVariant { value: 0xEEEE, .. })
    ));
}

#[test]
fn the_command_is_read_from_the_low_16_bits() {
    let packet = tix_core::Packet::new_command(3, tix_core::Command::ShellExecute, Vec::new())
        .unwrap();
    let mut bytes = packet.to_bytes().unwrap();
    // bytes 36..40 hold the composite field, little endian
    assert_eq!(&bytes[36..40], &[0x01, 0x01, 0, 0]);
    bytes[38] = 0xAB;
    bytes[39] = 0xCD;
    let header = tix_core::PacketHeader::from_bytes(&bytes).unwrap();
    assert_eq!(header.command().unwrap(), tix_core::Command::ShellExecute);
    let decoded = tix_core::Packet::from_bytes(&bytes).unwrap();
    assert_eq!(decoded.command().unwrap(), tix_core::Command::ShellExecute);
    // the field travels as it came
    assert_eq!(decoded.to_bytes().unwrap(), bytes);
    // an unknown code in the low bits is an error
    bytes[36] = 0xFF;
    bytes[37] = 0xFF;
    let header = tix_core::PacketHeader::from_bytes(&bytes).unwrap();
    assert!(matches!(
        header.command(),
        Err(tix_core::TixError::UnknownVariant { value: 0xFFFF, .. })
    ));
}
