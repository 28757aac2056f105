//! A packet: header plus payload, with a Blake3 checksum of the payload.

use vstd::prelude::*;
use vstd::slice::slice_subrange;
use crate::error::TixError;
use crate::flags::ProtocolFlags;
use crate::header::{
    lemma_header_roundtrip, parse_header, zero_checksum, HeaderParse, HeaderView, PacketHeader,
    HEADER_SIZE,
};
use crate::message::{Command, MessageType};

verus! {

/// Largest payload of a packet: 256 KiB.
pub const MAX_PAYLOAD_SIZE: usize = 262144;

/// Largest frame on the wire: header plus largest payload.
pub const MAX_FRAME_SIZE: usize = 262208;

/// The Blake3 hash of `input`: what `blake3::hash` returns for it.
pub uninterp spec fn blake3_digest(input: Seq<u8>) -> Seq<u8>;

/// `blake3::hash` followed by `Hash::as_bytes`: the 32-byte Blake3 hash of
/// the input, which depends on the input alone.
#[verifier::external_body]
pub(crate) fn blake3_hash(input: &[u8]) -> (digest: [u8; 32])
    ensures
        digest@ == blake3_digest(input@),
{
    *blake3::hash(input).as_bytes()
}

/// The checksum that a sender writes for a payload: the Blake3 hash, or
/// all zero for the empty payload.
pub open spec fn checksum_for(payload: Seq<u8>) -> Seq<u8> {
    if payload.len() == 0 {
        zero_checksum()
    } else {
        blake3_digest(payload)
    }
}

/// A packet as mathematical values.
pub struct PacketView {
    pub header: HeaderView,
    pub payload: Seq<u8>,
}

impl PacketView {
    /// The header is well-formed, the payload is within the limit and has
    /// the length that the header declares.
    pub open spec fn well_formed(self) -> bool {
        &&& self.header.well_formed()
        &&& self.payload.len() <= MAX_PAYLOAD_SIZE
        &&& self.header.payload_length == self.payload.len()
    }

    /// The frame of the packet on the wire: header, then payload.
    pub open spec fn wire(self) -> Seq<u8> {
        self.header.wire() + self.payload
    }

    /// Whether the checksum of the header is the one of the payload.
    pub open spec fn checksum_valid(self) -> bool {
        self.payload.len() == 0 || blake3_digest(self.payload) == self.header.checksum
    }

    /// The packet that the constructors build from these parts.
    pub open spec fn built(
        message_type: MessageType,
        request_id: u64,
        command: Command,
        payload: Seq<u8>,
        flags: u64,
    ) -> PacketView {
        PacketView {
            header: HeaderView {
                checksum: checksum_for(payload),
                ..HeaderView::fresh(
                    message_type,
                    command,
                    flags,
                    request_id,
                    payload.len() as u64,
                )
            },
            payload,
        }
    }
}

/// What decoding makes of a byte string that should be one frame.
pub enum PacketParse {
    /// Fewer than 64 bytes.
    TooShort,
    /// The first four bytes are neither `TIX0` nor `TIX1`.
    BadMagic,
    /// The header declares a payload of more than 256 KiB.
    TooLarge(u64),
    /// The bytes after the header are not as many as it declares.
    LengthMismatch(u64),
    /// A whole frame whose payload does not have the checksum that its
    /// header carries.
    ChecksumMismatch(PacketView),
    /// A packet.
    Parsed(PacketView),
}

/// Decoding of one frame, as a function of the bytes: the framing is
/// looked at first, then the checksum of a whole frame.
pub open spec fn parse_packet(bytes: Seq<u8>) -> PacketParse {
    match parse_header(bytes) {
        HeaderParse::TooShort => PacketParse::TooShort,
        HeaderParse::BadMagic => PacketParse::BadMagic,
        HeaderParse::Parsed(h) => if h.payload_length > MAX_PAYLOAD_SIZE {
            PacketParse::TooLarge(h.payload_length)
        } else if bytes.len() != 64 + h.payload_length {
            PacketParse::LengthMismatch(h.payload_length)
        } else if (PacketView { header: h, payload: bytes.skip(64) }).checksum_valid() {
            PacketParse::Parsed(PacketView { header: h, payload: bytes.skip(64) })
        } else {
            PacketParse::ChecksumMismatch(PacketView { header: h, payload: bytes.skip(64) })
        },
    }
}

/// What the constructors owe for these parts: the packet built from
/// them, which shows the message type, the command and the flags that it
/// was built with, or `PayloadTooLarge` when the payload is over the
/// limit.
pub open spec fn constructed(
    r: Result<Packet, TixError>,
    message_type: MessageType,
    request_id: u64,
    command: Command,
    payload: Seq<u8>,
    flags: u64,
) -> bool {
    match r {
        Ok(p) => {
            &&& payload.len() <= MAX_PAYLOAD_SIZE
            &&& p@ == PacketView::built(message_type, request_id, command, payload, flags)
            &&& p@.well_formed()
            &&& p@.checksum_valid()
            &&& p@.header.message_type_of() == message_type
            &&& p@.header.command_of() == Some(command)
            &&& p@.header.observable_flags() == flags
        },
        Err(e) => payload.len() > MAX_PAYLOAD_SIZE && e == (TixError::PayloadTooLarge {
            size: payload.len() as usize,
            max: MAX_PAYLOAD_SIZE,
        }),
    }
}

/// A fully assembled packet.
#[derive(Debug)]
pub struct Packet {
    header: PacketHeader,
    payload: Vec<u8>,
}

impl View for Packet {
    type V = PacketView;

    closed spec fn view(&self) -> PacketView {
        PacketView { header: self.header@, payload: self.payload@ }
    }
}

impl Clone for Packet {
    fn clone(&self) -> (r: Packet)
        ensures
            r@ == self@,
    {
        proof {
            use_type_invariant(self);
        }
        Packet { header: self.header, payload: self.payload.clone() }
    }
}

impl Packet {
    #[verifier::type_invariant]
    spec fn sound(&self) -> bool {
        &&& self.payload@.len() <= MAX_PAYLOAD_SIZE
        &&& self.header@.payload_length == self.payload@.len()
        &&& self.payload@.len() == 0 || blake3_digest(self.payload@) == self.header@.checksum
    }

    /// The heartbeat: a `Heartbeat` command with request id zero and no
    /// payload.
    pub fn heartbeat() -> (r: Packet)
        ensures
            r@ == PacketView::built(
                MessageType::Command,
                0,
                Command::Heartbeat,
                Seq::<u8>::empty(),
                0,
            ),
            r@.well_formed(),
            r@.checksum_valid(),
            r@.header.message_type_of() == MessageType::Command,
            r@.header.command_of() == Some(Command::Heartbeat),
            r@.header.observable_flags() == 0,
            r@.header.request_id == 0,
            r@.payload.len() == 0,
    {
        let header = PacketHeader::new(
            MessageType::Command,
            Command::Heartbeat,
            ProtocolFlags::none(),
            0,
            0,
        );
        Packet { header, payload: Vec::new() }
    }

    /// A command packet without flags.
    pub fn new_command(request_id: u64, command: Command, payload: Vec<u8>) -> (r: Result<
        Packet,
        TixError,
    >)
        ensures
            constructed(r, MessageType::Command, request_id, command, payload@, 0),
    {
        Packet::build(MessageType::Command, request_id, command, payload, ProtocolFlags::none())
    }

    /// A response packet without flags.
    pub fn new_response(request_id: u64, command: Command, payload: Vec<u8>) -> (r: Result<
        Packet,
        TixError,
    >)
        ensures
            constructed(r, MessageType::Response, request_id, command, payload@, 0),
    {
        Packet::build(MessageType::Response, request_id, command, payload, ProtocolFlags::none())
    }

    /// A command packet with the given flags.
    pub fn new_command_with_flags(
        request_id: u64,
        command: Command,
        payload: Vec<u8>,
        flags: ProtocolFlags,
    ) -> (r: Result<Packet, TixError>)
        ensures
            constructed(r, MessageType::Command, request_id, command, payload@, flags@),
    {
        Packet::build(MessageType::Command, request_id, command, payload, flags)
    }

    /// A response packet with the given flags.
    pub fn new_response_with_flags(
        request_id: u64,
        command: Command,
        payload: Vec<u8>,
        flags: ProtocolFlags,
    ) -> (r: Result<Packet, TixError>)
        ensures
            constructed(r, MessageType::Response, request_id, command, payload@, flags@),
    {
        Packet::build(MessageType::Response, request_id, command, payload, flags)
    }

    /// Builds a packet and writes the checksum of its payload: the Blake3
    /// hash, or zero for the empty payload. A payload over the limit is
    /// refused.
    fn build(
        msg_type: MessageType,
        request_id: u64,
        command: Command,
        payload: Vec<u8>,
        flags: ProtocolFlags,
    ) -> (r: Result<Packet, TixError>)
        ensures
            constructed(r, msg_type, request_id, command, payload@, flags@),
    {
        if payload.len() > MAX_PAYLOAD_SIZE {
            return Err(TixError::PayloadTooLarge { size: payload.len(), max: MAX_PAYLOAD_SIZE });
        }
        let mut header = PacketHeader::new(
            msg_type,
            command,
            flags,
            request_id,
            payload.len() as u64,
        );
        if payload.len() > 0 {
            let digest = blake3_hash(payload.as_slice());
            header.set_checksum(digest);
        }
        Ok(Packet { header, payload })
    }

    /// The header.
    pub fn header(&self) -> (r: &PacketHeader)
        ensures
            r@ == self@.header,
    {
        &self.header
    }

    /// The payload bytes.
    pub fn payload(&self) -> (r: &[u8])
        ensures
            r@ == self@.payload,
            r@.len() <= MAX_PAYLOAD_SIZE,
            r@.len() == self@.header.payload_length,
    {
        proof {
            use_type_invariant(self);
        }
        self.payload.as_slice()
    }

    /// Whether this is a command or a response.
    pub fn message_type(&self) -> (r: MessageType)
        ensures
            r == self@.header.message_type_of(),
    {
        self.header.message_type()
    }

    /// The command of the packet; an unknown code is an `UnknownVariant`
    /// error.
    pub fn command(&self) -> (r: Result<Command, TixError>)
        ensures
            match r {
                Ok(c) => self@.header.command_of() == Some(c),
                Err(e) => self@.header.command_of().is_none() && e is UnknownVariant,
            },
    {
        self.header.command()
    }

    /// The observable flags.
    pub fn flags(&self) -> (r: ProtocolFlags)
        ensures
            r@ == self@.header.observable_flags(),
    {
        self.header.flags()
    }

    /// The request id.
    pub fn request_id(&self) -> (r: u64)
        ensures
            r == self@.header.request_id,
    {
        self.header.request_id()
    }

    /// Whether the packet answers no request and asks for no answer: its
    /// request id is the reserved 0, as that of every heartbeat.
    pub fn is_uncorrelated(&self) -> (r: bool)
        ensures
            r == (self@.header.request_id == 0),
    {
        self.header.request_id() == 0
    }

    /// The length of the payload as the header declares it, which is the
    /// length of the payload.
    pub fn payload_length(&self) -> (r: u64)
        ensures
            r == self@.header.payload_length,
            r == self@.payload.len(),
    {
        proof {
            use_type_invariant(self);
        }
        self.header.payload_length()
    }

    /// The 32-byte checksum of the header.
    pub fn checksum(&self) -> (r: &[u8; 32])
        ensures
            r@ == self@.header.checksum,
    {
        self.header.checksum()
    }

    /// The frame of the packet: the 64 bytes of the header, then the
    /// payload. Decoding the frame gives the packet back.
    pub fn to_bytes(&self) -> (r: Result<Vec<u8>, TixError>)
        ensures
            self@.well_formed(),
            r is Ok,
            r.unwrap()@ == self@.wire(),
            r.unwrap()@.len() == 64 + self@.payload.len(),
            parse_packet(r.unwrap()@) == PacketParse::Parsed(self@),
    {
        proof {
            use_type_invariant(self);
        }
        if self.payload.len() > MAX_PAYLOAD_SIZE {
            return Err(
                TixError::PayloadTooLarge { size: self.payload.len(), max: MAX_PAYLOAD_SIZE },
            );
        }
        let head = self.header.to_bytes();
        let mut buf: Vec<u8> = Vec::with_capacity(HEADER_SIZE + self.payload.len());
        buf.extend_from_slice(head.as_slice());
        buf.extend_from_slice(self.payload.as_slice());
        proof {
            lemma_packet_roundtrip(self@);
        }
        Ok(buf)
    }

    /// Reads a packet from exactly one frame.
    ///
    /// Fails with `InvalidPacketLength` when there are fewer than 64
    /// bytes, `InvalidMagic` when the magic is not accepted,
    /// `PayloadTooLarge` when the header declares more than 256 KiB, however many
    /// bytes follow, and `InvalidPacketLength` when the bytes after the
    /// header are not as many as it declares. Of a whole frame the hash
    /// of the payload is computed and compared: `ChecksumMismatch` when it
    /// is not the checksum of the header. No packet with an unverified
    /// payload is returned.
    pub fn from_bytes(bytes: &[u8]) -> (r: Result<Packet, TixError>)
        ensures
            match r {
                Ok(p) => parse_packet(bytes@) == PacketParse::Parsed(p@) && p@.well_formed()
                    && p@.checksum_valid(),
                Err(e) => match parse_packet(bytes@) {
                    PacketParse::TooShort => e == (TixError::InvalidPacketLength {
                        expected: HEADER_SIZE,
                        actual: bytes@.len() as usize,
                    }),
                    PacketParse::BadMagic => e is InvalidMagic,
                    PacketParse::TooLarge(n) => e matches TixError::PayloadTooLarge { size, max }
                        && max == MAX_PAYLOAD_SIZE && (n <= usize::MAX ==> size == n) && (n
                        > usize::MAX ==> size == usize::MAX),
                    PacketParse::LengthMismatch(n) => e == (TixError::InvalidPacketLength {
                        expected: (64 + n) as usize,
                        actual: bytes@.len() as usize,
                    }),
                    PacketParse::ChecksumMismatch(_) => e is ChecksumMismatch,
                    PacketParse::Parsed(_) => false,
                },
            },
    {
        if bytes.len() < HEADER_SIZE {
            return Err(
                TixError::InvalidPacketLength { expected: HEADER_SIZE, actual: bytes.len() },
            );
        }
        let header = match PacketHeader::from_bytes(bytes) {
            Ok(h) => h,
            Err(e) => {
                return Err(e);
            },
        };
        let declared = header.payload_length();
        if declared > MAX_PAYLOAD_SIZE as u64 {
            let size = if declared > usize::MAX as u64 {
                usize::MAX
            } else {
                declared as usize
            };
            return Err(TixError::PayloadTooLarge { size, max: MAX_PAYLOAD_SIZE });
        }
        let expected_total = HEADER_SIZE + declared as usize;
        if bytes.len() != expected_total {
            return Err(
                TixError::InvalidPacketLength { expected: expected_total, actual: bytes.len() },
            );
        }
        let payload = vstd::slice::slice_to_vec(slice_subrange(bytes, HEADER_SIZE, bytes.len()));
        assert(payload@ =~= bytes@.skip(64));
        if payload.len() > 0 {
            let computed = blake3_hash(payload.as_slice());
            if !same_checksum(&computed, header.checksum()) {
                return Err(TixError::ChecksumMismatch);
            }
        }
        Ok(Packet { header, payload })
    }

    /// Whether the payload matches the checksum of the header. An empty
    /// payload always does. The hash is computed anew; it matches, since
    /// the constructors write the checksum of the payload and decoding
    /// refuses a frame whose checksum does not match.
    pub fn validate_checksum(&self) -> (r: bool)
        ensures
            r == self@.checksum_valid(),
            r,
    {
        proof {
            use_type_invariant(self);
        }
        if self.payload.len() == 0 {
            return true;
        }
        let computed = blake3_hash(self.payload.as_slice());
        same_checksum(&computed, self.header.checksum())
    }
}

/// Whether two checksums are the same 32 bytes.
pub fn same_checksum(a: &[u8; 32], b: &[u8; 32]) -> (r: bool)
    ensures
        r == (a@ == b@),
{
    let mut i: usize = 0;
    while i < 32
        invariant
            i <= 32,
            forall|j: int| 0 <= j < i ==> a@[j] == b@[j],
        decreases 32 - i,
    {
        if a[i] != b[i] {
            return false;
        }
        i += 1;
    }
    assert(a@ =~= b@);
    true
}

/// Whether a checksum is all zero.
pub fn is_zero_checksum(a: &[u8; 32]) -> (r: bool)
    ensures
        r == (a@ == zero_checksum()),
{
    let mut i: usize = 0;
    while i < 32
        invariant
            i <= 32,
            forall|j: int| 0 <= j < i ==> a@[j] == 0,
        decreases 32 - i,
    {
        if a[i] != 0 {
            assert(zero_checksum()[i as int] == 0);
            return false;
        }
        i += 1;
    }
    assert(a@ =~= zero_checksum());
    true
}

/// Encoding then decoding is the identity: every well-formed packet is
/// read back from its own frame with every field, the checksum among
/// them, unchanged.
pub proof fn lemma_packet_roundtrip(p: PacketView)
    requires
        p.well_formed(),
        p.checksum_valid(),
    ensures
        p.wire().len() == 64 + p.payload.len(),
        parse_packet(p.wire()) == PacketParse::Parsed(p),
{
    lemma_header_roundtrip(p.header);
    let w = p.wire();
    let hw = p.header.wire();
    assert(w.subrange(0, 4) =~= hw.subrange(0, 4));
    assert(w.subrange(4, 36) =~= hw.subrange(4, 36));
    assert(w.subrange(36, 40) =~= hw.subrange(36, 40));
    assert(w.subrange(40, 48) =~= hw.subrange(40, 48));
    assert(w.subrange(48, 56) =~= hw.subrange(48, 56));
    assert(w.subrange(56, 64) =~= hw.subrange(56, 64));
    assert(HeaderView::of_wire(w) == HeaderView::of_wire(hw));
    assert(w.skip(64) =~= p.payload);
}

/// Decoding then encoding is the identity too: a frame that decodes to a
/// packet is that packet's frame.
pub proof fn lemma_packet_wire_of_parsed(bytes: Seq<u8>, p: PacketView)
    requires
        parse_packet(bytes) == PacketParse::Parsed(p),
    ensures
        p.wire() == bytes,
        p.well_formed(),
        p.checksum_valid(),
{
    crate::header::lemma_header_wire_of_parsed(bytes);
    assert(p.wire() =~= bytes);
}

/// A whole frame whose payload does not have the checksum of its header
/// is refused for that, and for nothing else: the frame of a packet that
/// is well-formed but for its checksum parses to a checksum mismatch.
pub proof fn lemma_packet_checksum_mismatch(p: PacketView)
    requires
        p.well_formed(),
        !p.checksum_valid(),
    ensures
        parse_packet(p.wire()) == PacketParse::ChecksumMismatch(p),
{
    lemma_header_roundtrip(p.header);
    let w = p.wire();
    let hw = p.header.wire();
    assert(w.subrange(0, 4) =~= hw.subrange(0, 4));
    assert(w.subrange(4, 36) =~= hw.subrange(4, 36));
    assert(w.subrange(36, 40) =~= hw.subrange(36, 40));
    assert(w.subrange(40, 48) =~= hw.subrange(40, 48));
    assert(w.subrange(48, 56) =~= hw.subrange(48, 56));
    assert(w.subrange(56, 64) =~= hw.subrange(56, 64));
    assert(HeaderView::of_wire(w) == HeaderView::of_wire(hw));
    assert(w.skip(64) =~= p.payload);
}

/// The checksum that the constructors write is the Blake3 hash of the
/// payload, and all zero for the empty payload; either way it validates.
pub proof fn lemma_built_checksum(
    message_type: MessageType,
    request_id: u64,
    command: Command,
    payload: Seq<u8>,
    flags: u64,
)
    ensures
        payload.len() > 0 ==> PacketView::built(
            message_type,
            request_id,
            command,
            payload,
            flags,
        ).header.checksum == blake3_digest(payload),
        payload.len() == 0 ==> PacketView::built(
            message_type,
            request_id,
            command,
            payload,
            flags,
        ).header.checksum == zero_checksum(),
        PacketView::built(message_type, request_id, command, payload, flags).checksum_valid(),
{
}

/// Decoding fails with a bad magic for every four-byte prefix other than
/// `TIX0` and `TIX1`.
pub proof fn lemma_packet_bad_magic(bytes: Seq<u8>)
    requires
        bytes.len() >= 64,
        !crate::header::valid_magic(bytes.subrange(0, 4)),
    ensures
        parse_packet(bytes) == PacketParse::BadMagic,
{
}

/// Decoding fails as too large for every declared length over 256 KiB,
/// however many bytes are there.
pub proof fn lemma_packet_too_large(bytes: Seq<u8>)
    requires
        bytes.len() >= 64,
        crate::header::valid_magic(bytes.subrange(0, 4)),
        HeaderView::of_wire(bytes).payload_length > MAX_PAYLOAD_SIZE,
    ensures
        parse_packet(bytes) == PacketParse::TooLarge(HeaderView::of_wire(bytes).payload_length),
{
}

} // verus!
