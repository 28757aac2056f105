use tix_core::ProtocolFlags;

#[test]
fn default_is_none() {
    assert_eq!(ProtocolFlags::default(), ProtocolFlags::none());
}

#[test]
fn combine_flags() {
    let flags = ProtocolFlags::compressed() | ProtocolFlags::encrypted();
    assert!(flags.contains(ProtocolFlags::compressed()));
    assert!(flags.contains(ProtocolFlags::encrypted()));
    assert!(!flags.contains(ProtocolFlags::streaming()));
}

#[test]
fn from_raw_truncates_unknown() {
    let raw: u64 = 0xFFFF_FFFF_FFFF_FFFF;
    let flags = ProtocolFlags::from(raw);
    // Should only contain the known bits
    assert!(flags.contains(ProtocolFlags::compressed()));
    assert!(flags.contains(ProtocolFlags::streaming()));
}

#[test]
fn flags_roundtrip() {
    let flags = ProtocolFlags::compressed() | ProtocolFlags::ack_requested();
    let raw = flags.bits();
    assert_eq!(ProtocolFlags::from(raw), flags);
}

#[test]
fn flag_bits_are_the_wire_values() {
    assert_eq!(ProtocolFlags::none().bits(), 0x00);
    assert_eq!(ProtocolFlags::compressed().bits(), 0x01);
    assert_eq!(ProtocolFlags::encrypted().bits(), 0x02);
    assert_eq!(ProtocolFlags::final_fragment().bits(), 0x04);
    assert_eq!(ProtocolFlags::ack_requested().bits(), 0x08);
    assert_eq!(ProtocolFlags::streaming().bits(), 0x10);
    assert_eq!(ProtocolFlags::from(0xFFFF_FFFF_FFFF_FFFF).bits(), 0x1F);
    assert_eq!(ProtocolFlags::from_bits_truncate(1 << 63).bits(), 0);
    assert!(ProtocolFlags::none().is_empty());
    assert!(!ProtocolFlags::streaming().is_empty());
    assert_eq!(
        ProtocolFlags::streaming().union(ProtocolFlags::final_fragment()).bits(),
        0x14
    );
}
