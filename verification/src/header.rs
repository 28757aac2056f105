//! The packet header: 64 bytes, little-endian.
//!
//! ```text
//! Offset  Size   Field
//!   0       4    magic           "TIX1" (or the legacy "TIX0")
//!   4      32    checksum        Blake3 hash of the payload
//!  36       4    message_type    the command's code
//!  40       8    flags           flag bits; bit 63 marks a response
//!  48       8    request_id      ties a response to its command
//!  56       8    payload_length  byte count of the payload that follows
//! ```

use vstd::prelude::*;
use vstd::bytes::{
    lemma_auto_spec_u32_to_from_le_bytes, lemma_auto_spec_u64_to_from_le_bytes,
    spec_u32_from_le_bytes, spec_u32_to_le_bytes, spec_u64_from_le_bytes, spec_u64_to_le_bytes,
    u32_from_le_bytes, u32_to_le_bytes, u64_from_le_bytes, u64_to_le_bytes,
};
use vstd::slice::slice_subrange;
use crate::error::TixError;
use crate::flags::{ProtocolFlags, KNOWN_FLAG_BITS};
use crate::message::{Command, MessageType};
use crate::wire::put;

verus! {

/// Fixed size of the header on the wire.
pub const HEADER_SIZE: usize = 64;

/// The magic bytes of the current protocol version, `TIX1`.
pub const MAGIC: [u8; 4] = [0x54, 0x49, 0x58, 0x31];

/// The bit of the wire's flags field that marks a response. It is no
/// observable flag.
pub const RESPONSE_BIT: u64 = 0x8000_0000_0000_0000;

/// The magic of the current version as a sequence: `TIX1`.
pub open spec fn magic_current() -> Seq<u8> {
    seq![0x54u8, 0x49u8, 0x58u8, 0x31u8]
}

/// The magic of the legacy version as a sequence: `TIX0`.
pub open spec fn magic_legacy() -> Seq<u8> {
    seq![0x54u8, 0x49u8, 0x58u8, 0x30u8]
}

/// Whether four bytes are a magic that decoding accepts.
pub open spec fn valid_magic(m: Seq<u8>) -> bool {
    m == magic_current() || m == magic_legacy()
}

/// Thirty-two zero bytes: the checksum of an empty payload.
pub open spec fn zero_checksum() -> Seq<u8> {
    Seq::new(32, |i: int| 0u8)
}

/// The six fields of a header as mathematical values.
pub struct HeaderView {
    pub magic: Seq<u8>,
    pub checksum: Seq<u8>,
    pub message_type: u32,
    pub flags: u64,
    pub request_id: u64,
    pub payload_length: u64,
}

impl HeaderView {
    /// The field widths are those of the wire format and the magic is one
    /// that decoding accepts.
    pub open spec fn well_formed(self) -> bool {
        &&& self.magic.len() == 4
        &&& valid_magic(self.magic)
        &&& self.checksum.len() == 32
    }

    /// Whether the header marks a response.
    pub open spec fn is_response(self) -> bool {
        self.flags & RESPONSE_BIT != 0
    }

    /// The message type that the header shows.
    pub open spec fn message_type_of(self) -> MessageType {
        if self.is_response() {
            MessageType::Response
        } else {
            MessageType::Command
        }
    }

    /// The bitmask of the observable flags: the known bits of the wire
    /// field, the response marker and unknown bits left out.
    pub open spec fn observable_flags(self) -> u64 {
        self.flags & KNOWN_FLAG_BITS
    }

    /// The command that the header names, if its code is known: the
    /// code is the low 16 bits of the composite field.
    pub open spec fn command_of(self) -> Option<Command> {
        Command::of_code((self.message_type & 0xFFFF) as u64)
    }

    /// The 64 bytes of the header on the wire.
    pub open spec fn wire(self) -> Seq<u8> {
        self.magic + self.checksum + spec_u32_to_le_bytes(self.message_type)
            + spec_u64_to_le_bytes(self.flags) + spec_u64_to_le_bytes(self.request_id)
            + spec_u64_to_le_bytes(self.payload_length)
    }

    /// The fields that the first 64 bytes of `bytes` hold.
    pub open spec fn of_wire(bytes: Seq<u8>) -> HeaderView {
        HeaderView {
            magic: bytes.subrange(0, 4),
            checksum: bytes.subrange(4, 36),
            message_type: spec_u32_from_le_bytes(bytes.subrange(36, 40)),
            flags: spec_u64_from_le_bytes(bytes.subrange(40, 48)),
            request_id: spec_u64_from_le_bytes(bytes.subrange(48, 56)),
            payload_length: spec_u64_from_le_bytes(bytes.subrange(56, 64)),
        }
    }

    /// The fields of a freshly built header that shows the flags `flags`.
    pub open spec fn fresh(
        message_type: MessageType,
        command: Command,
        flags: u64,
        request_id: u64,
        payload_length: u64,
    ) -> HeaderView {
        HeaderView {
            magic: magic_current(),
            checksum: zero_checksum(),
            message_type: command.spec_code() as u32,
            flags: if message_type == MessageType::Response {
                flags | RESPONSE_BIT
            } else {
                flags
            },
            request_id,
            payload_length,
        }
    }
}

/// What decoding makes of a byte string that should start with a header.
pub enum HeaderParse {
    /// Fewer than 64 bytes.
    TooShort,
    /// The first four bytes are neither `TIX0` nor `TIX1`.
    BadMagic,
    /// A header with these fields.
    Parsed(HeaderView),
}

/// Decoding of a header, as a function of the bytes.
pub open spec fn parse_header(bytes: Seq<u8>) -> HeaderParse {
    if bytes.len() < 64 {
        HeaderParse::TooShort
    } else if !valid_magic(bytes.subrange(0, 4)) {
        HeaderParse::BadMagic
    } else {
        HeaderParse::Parsed(HeaderView::of_wire(bytes))
    }
}

/// The header of a packet.
///
/// All fields of more than one byte are little-endian on the wire.
#[derive(Debug, Clone, Copy)]
pub struct PacketHeader {
    magic: [u8; 4],
    checksum: [u8; 32],
    message_type: u32,
    flags: u64,
    request_id: u64,
    payload_length: u64,
}

impl View for PacketHeader {
    type V = HeaderView;

    closed spec fn view(&self) -> HeaderView {
        HeaderView {
            magic: self.magic@,
            checksum: self.checksum@,
            message_type: self.message_type,
            flags: self.flags,
            request_id: self.request_id,
            payload_length: self.payload_length,
        }
    }
}

impl PacketHeader {
    #[verifier::type_invariant]
    spec fn magic_is_valid(&self) -> bool {
        valid_magic(self.magic@)
    }

    /// A new header with the given fields, the magic of the current
    /// version and a zero checksum. The response marker is set for a
    /// response and for nothing else: `flags` cannot hold it.
    pub fn new(
        message_type: MessageType,
        command: Command,
        flags: ProtocolFlags,
        request_id: u64,
        payload_length: u64,
    ) -> (r: PacketHeader)
        ensures
            r@ == HeaderView::fresh(message_type, command, flags@, request_id, payload_length),
            r@.well_formed(),
            r@.message_type_of() == message_type,
            r@.observable_flags() == flags@,
            r@.command_of() == Some(command),
    {
        let bits = flags.bits();
        let wire_flags = match message_type {
            MessageType::Response => bits | RESPONSE_BIT,
            MessageType::Command => bits,
        };
        assert(bits & !0x1Fu64 == 0 ==> (bits | 0x8000_0000_0000_0000) & 0x1F == bits && (bits
            | 0x8000_0000_0000_0000) & 0x8000_0000_0000_0000 != 0 && bits & 0x1F == bits && bits
            & 0x8000_0000_0000_0000 == 0) by (bit_vector);
        let code = command.code();
        let magic: [u8; 4] = [0x54, 0x49, 0x58, 0x31];
        let checksum = [0u8; 32];
        assert(magic@ =~= magic_current());
        assert(checksum@ =~= zero_checksum());
        proof {
            crate::message::lemma_command_code_roundtrip(command);
        }
        assert(code <= 0xFFFF ==> ((code as u32) & 0xFFFF) as u64 == code) by (bit_vector);
        PacketHeader {
            magic,
            checksum,
            message_type: code as u32,
            flags: wire_flags,
            request_id,
            payload_length,
        }
    }

    /// Sets the checksum.
    pub fn set_checksum(&mut self, checksum: [u8; 32])
        ensures
            final(self)@ == (HeaderView { checksum: checksum@, ..old(self)@ }),
    {
        proof {
            use_type_invariant(&*self);
        }
        self.checksum = checksum;
    }

    /// The 32-byte checksum.
    pub fn checksum(&self) -> (r: &[u8; 32])
        ensures
            r@ == self@.checksum,
    {
        &self.checksum
    }

    /// The command that the low 16 bits of the composite field name; an
    /// unknown code is an `UnknownVariant` error.
    pub fn command(&self) -> (r: Result<Command, TixError>)
        ensures
            match r {
                Ok(c) => self@.command_of() == Some(c),
                Err(e) => self@.command_of().is_none() && e is UnknownVariant,
            },
    {
        Command::try_from((self.message_type & 0xFFFF) as u64)
    }

    /// Whether this is a command or a response.
    pub fn message_type(&self) -> (r: MessageType)
        ensures
            r == self@.message_type_of(),
    {
        if self.flags & RESPONSE_BIT != 0 {
            MessageType::Response
        } else {
            MessageType::Command
        }
    }

    /// The observable flags, without the response marker and without bits
    /// that name no flag.
    pub fn flags(&self) -> (r: ProtocolFlags)
        ensures
            r@ == self@.observable_flags(),
    {
        let f = self.flags;
        assert((f & !0x8000_0000_0000_0000u64) & 0x1F == f & 0x1F) by (bit_vector);
        ProtocolFlags::from(f & !RESPONSE_BIT)
    }

    /// The request id.
    pub fn request_id(&self) -> (r: u64)
        ensures
            r == self@.request_id,
    {
        self.request_id
    }

    /// The declared length of the payload in bytes.
    pub fn payload_length(&self) -> (r: u64)
        ensures
            r == self@.payload_length,
    {
        self.payload_length
    }

    /// The header as exactly 64 bytes.
    pub fn to_bytes(&self) -> (r: [u8; 64])
        ensures
            r@ == self@.wire(),
            self@.well_formed(),
    {
        proof {
            use_type_invariant(self);
            lemma_auto_spec_u32_to_from_le_bytes();
            lemma_auto_spec_u64_to_from_le_bytes();
        }
        let mut buf = [0u8; 64];
        put(&mut buf, 0, &self.magic);
        put(&mut buf, 4, &self.checksum);
        let mt = u32_to_le_bytes(self.message_type);
        put(&mut buf, 36, mt.as_slice());
        let fl = u64_to_le_bytes(self.flags);
        put(&mut buf, 40, fl.as_slice());
        let id = u64_to_le_bytes(self.request_id);
        put(&mut buf, 48, id.as_slice());
        let pl = u64_to_le_bytes(self.payload_length);
        put(&mut buf, 56, pl.as_slice());
        assert(buf@ =~= self@.wire());
        buf
    }

    /// Reads a header from the first 64 bytes of `bytes`.
    ///
    /// Fails with `InvalidHeader` when there are fewer than 64 bytes and
    /// with `InvalidMagic` when the first four are neither `TIX0` nor
    /// `TIX1`. Every other field is taken as it stands.
    pub fn from_bytes(bytes: &[u8]) -> (r: Result<PacketHeader, TixError>)
        ensures
            match r {
                Ok(h) => parse_header(bytes@) == HeaderParse::Parsed(h@) && h@.well_formed(),
                Err(e) => match parse_header(bytes@) {
                    HeaderParse::TooShort => e is InvalidHeader,
                    HeaderParse::BadMagic => e is InvalidMagic,
                    HeaderParse::Parsed(_) => false,
                },
            },
    {
        if bytes.len() < HEADER_SIZE {
            return Err(TixError::InvalidHeader("buffer too short for header"));
        }
        let magic: [u8; 4] = [bytes[0], bytes[1], bytes[2], bytes[3]];
        assert(magic@ =~= bytes@.subrange(0, 4));
        let current = magic[0] == 0x54 && magic[1] == 0x49 && magic[2] == 0x58 && magic[3]
            == 0x31;
        let legacy = magic[0] == 0x54 && magic[1] == 0x49 && magic[2] == 0x58 && magic[3]
            == 0x30;
        assert(current == (magic@ == magic_current())) by {
            if current {
                assert(magic@ =~= magic_current());
            } else {
                assert(magic_current()[0] == 0x54 && magic_current()[1] == 0x49 && magic_current()[2]
                    == 0x58 && magic_current()[3] == 0x31);
            }
        }
        assert(legacy == (magic@ == magic_legacy())) by {
            if legacy {
                assert(magic@ =~= magic_legacy());
            } else {
                assert(magic_legacy()[0] == 0x54 && magic_legacy()[1] == 0x49 && magic_legacy()[2]
                    == 0x58 && magic_legacy()[3] == 0x30);
            }
        }
        if !current && !legacy {
            return Err(TixError::InvalidMagic);
        }
        let mut checksum = [0u8; 32];
        let mut i: usize = 0;
        while i < 32
            invariant
                i <= 32,
                bytes@.len() >= 64,
                forall|j: int| 0 <= j < i ==> checksum@[j] == bytes@[4 + j],
            decreases 32 - i,
        {
            checksum[i] = bytes[4 + i];
            i += 1;
        }
        assert(checksum@ =~= bytes@.subrange(4, 36));
        let message_type = u32_from_le_bytes(slice_subrange(bytes, 36, 40));
        let flags = u64_from_le_bytes(slice_subrange(bytes, 40, 48));
        let request_id = u64_from_le_bytes(slice_subrange(bytes, 48, 56));
        let payload_length = u64_from_le_bytes(slice_subrange(bytes, 56, 64));
        Ok(PacketHeader { magic, checksum, message_type, flags, request_id, payload_length })
    }
}

/// A well-formed header is read back from its own bytes, every field
/// unchanged.
pub proof fn lemma_header_roundtrip(h: HeaderView)
    requires
        h.well_formed(),
    ensures
        h.wire().len() == 64,
        parse_header(h.wire()) == HeaderParse::Parsed(h),
{
    lemma_auto_spec_u32_to_from_le_bytes();
    lemma_auto_spec_u64_to_from_le_bytes();
    let w = h.wire();
    assert(w.len() == 64);
    assert(w.subrange(0, 4) =~= h.magic);
    assert(w.subrange(4, 36) =~= h.checksum);
    assert(w.subrange(36, 40) =~= spec_u32_to_le_bytes(h.message_type));
    assert(w.subrange(40, 48) =~= spec_u64_to_le_bytes(h.flags));
    assert(w.subrange(48, 56) =~= spec_u64_to_le_bytes(h.request_id));
    assert(w.subrange(56, 64) =~= spec_u64_to_le_bytes(h.payload_length));
}

/// The header that decoding reads from 64 bytes or more is written back
/// as exactly the first 64 of them.
pub proof fn lemma_header_wire_of_parsed(bytes: Seq<u8>)
    requires
        bytes.len() >= 64,
    ensures
        HeaderView::of_wire(bytes).wire() == bytes.subrange(0, 64),
{
    lemma_auto_spec_u32_to_from_le_bytes();
    lemma_auto_spec_u64_to_from_le_bytes();
    let h = HeaderView::of_wire(bytes);
    assert(bytes.subrange(36, 40).len() == 4);
    assert(bytes.subrange(40, 48).len() == 8);
    assert(bytes.subrange(48, 56).len() == 8);
    assert(bytes.subrange(56, 64).len() == 8);
    assert(h.wire() =~= bytes.subrange(0, 64));
}

/// Decoding fails with a bad magic for every four-byte prefix other than
/// `TIX0` and `TIX1`, whatever follows it.
pub proof fn lemma_bad_magic_rejected(bytes: Seq<u8>)
    requires
        bytes.len() >= 64,
        bytes.subrange(0, 4) != magic_current(),
        bytes.subrange(0, 4) != magic_legacy(),
    ensures
        parse_header(bytes) == HeaderParse::BadMagic,
{
}

} // verus!
