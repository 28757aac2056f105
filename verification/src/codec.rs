//! The frame codec: takes whole packets off a growing byte buffer and
//! appends the frames of packets to one.
//!
//! The buffer is a `bytes::BytesMut`, which a stream reader fills. One
//! call of [`TixCodec::decode`] yields at most one packet, and takes bytes
//! off the buffer only when a whole frame is there.

use vstd::prelude::*;
use bytes::BytesMut;
use crate::error::TixError;
use crate::header::{parse_header, zero_checksum, HeaderParse, HeaderView, PacketHeader, HEADER_SIZE};
use crate::packet::{is_zero_checksum, Packet, PacketView, MAX_FRAME_SIZE, MAX_PAYLOAD_SIZE};

verus! {

/// `bytes::BytesMut`, a growable byte buffer. It is known here only by the
/// bytes it holds, [`buffered`].
#[verifier::external_type_specification]
#[verifier::external_body]
pub struct ExBytesMut(bytes::BytesMut);

/// The bytes that a buffer holds, first to last.
pub uninterp spec fn buffered(buf: BytesMut) -> Seq<u8>;

/// `BytesMut::len`: the number of bytes in the buffer.
#[verifier::external_body]
fn buffer_len(buf: &BytesMut) -> (n: usize)
    ensures
        n == buffered(*buf).len(),
{
    buf.len()
}

/// A copy of the first `n` bytes, read through `BytesMut`'s `Deref` to a
/// slice; the buffer is not changed.
#[verifier::external_body]
fn buffer_head(buf: &BytesMut, n: usize) -> (head: Vec<u8>)
    requires
        n <= buffered(*buf).len(),
    ensures
        head@ == buffered(*buf).take(n as int),
{
    buf[..n].to_vec()
}

/// `BytesMut::reserve`: makes room for `additional` more bytes and leaves
/// the contents as they are. It panics only when the capacity overflows
/// `usize`, which the precondition excludes.
#[verifier::external_body]
fn buffer_reserve(buf: &mut BytesMut, additional: usize)
    requires
        buffered(*old(buf)).len() + additional <= isize::MAX,
    ensures
        buffered(*final(buf)) == buffered(*old(buf)),
{
    buf.reserve(additional)
}

/// `BytesMut::split_to`: takes the first `at` bytes off the buffer and
/// returns them; the buffer keeps the rest. It panics when `at` is past
/// the end, which the precondition excludes.
#[verifier::external_body]
fn buffer_split_to(buf: &mut BytesMut, at: usize) -> (front: Vec<u8>)
    requires
        at <= buffered(*old(buf)).len(),
    ensures
        front@ == buffered(*old(buf)).take(at as int),
        buffered(*final(buf)) == buffered(*old(buf)).skip(at as int),
{
    buf.split_to(at).to_vec()
}

/// `BytesMut::extend_from_slice`: appends the bytes to the buffer.
#[verifier::external_body]
fn buffer_extend(buf: &mut BytesMut, bytes: &[u8])
    requires
        buffered(*old(buf)).len() + bytes@.len() <= isize::MAX,
    ensures
        buffered(*final(buf)) == buffered(*old(buf)) + bytes@,
{
    buf.extend_from_slice(bytes)
}

/// The number of bytes that a buffer holds.
pub fn buffered_len(buf: &BytesMut) -> (n: usize)
    ensures
        n == buffered(*buf).len(),
{
    buffer_len(buf)
}

/// What one decode attempt makes of the buffered bytes.
pub enum DecodeStep {
    /// More than one frame's worth of bytes is buffered.
    FrameTooLarge,
    /// Not enough bytes yet for a header, or for the frame that the header
    /// declares: nothing is taken.
    NeedMore,
    /// The magic of the buffered header is not accepted.
    BadMagic,
    /// The header declares a payload over the limit.
    PayloadTooLarge(u64),
    /// The header declares a payload and carries an all-zero checksum.
    ZeroChecksum,
    /// A whole frame of this many bytes is there, and its payload does not
    /// match its checksum.
    ChecksumMismatch(nat),
    /// A whole frame of this many bytes is there and holds this packet.
    Frame(nat, PacketView),
}

/// One decode attempt, as a function of the buffered bytes.
pub open spec fn decode_step(bytes: Seq<u8>) -> DecodeStep {
    if bytes.len() > MAX_FRAME_SIZE {
        DecodeStep::FrameTooLarge
    } else {
        match parse_header(bytes) {
            HeaderParse::TooShort => DecodeStep::NeedMore,
            HeaderParse::BadMagic => DecodeStep::BadMagic,
            HeaderParse::Parsed(h) => {
                if h.payload_length > MAX_PAYLOAD_SIZE {
                    DecodeStep::PayloadTooLarge(h.payload_length)
                } else if h.payload_length > 0 && h.checksum == zero_checksum() {
                    DecodeStep::ZeroChecksum
                } else if bytes.len() < 64 + h.payload_length {
                    DecodeStep::NeedMore
                } else {
                    let total = (64 + h.payload_length) as nat;
                    let p = PacketView {
                        header: h,
                        payload: bytes.subrange(64, total as int),
                    };
                    if p.checksum_valid() {
                        DecodeStep::Frame(total, p)
                    } else {
                        DecodeStep::ChecksumMismatch(total)
                    }
                }
            },
        }
    }
}

/// The bytes that one decode attempt leaves in the buffer: all of them,
/// unless a whole frame was there, which is taken off the front.
pub open spec fn decode_rest(bytes: Seq<u8>) -> Seq<u8> {
    match decode_step(bytes) {
        DecodeStep::Frame(total, _) => bytes.skip(total as int),
        DecodeStep::ChecksumMismatch(total) => bytes.skip(total as int),
        _ => bytes,
    }
}

/// The stateless codec of the control stream.
pub struct TixCodec;

impl TixCodec {
    /// Tries to take one packet off the front of the buffer.
    ///
    /// In order: more than `MAX_FRAME_SIZE` bytes buffered is
    /// `FrameTooLarge`; fewer than 64 is "need more" (`Ok(None)`); a bad
    /// magic is `InvalidMagic`; a declared payload over 256 KiB is
    /// `PayloadTooLarge`; a declared payload with an all-zero checksum is
    /// `ProtocolViolation`; a frame that is not all there yet is "need
    /// more". Up to here the buffer keeps every byte. Otherwise exactly
    /// the frame is taken off the buffer, and it yields its packet, or
    /// `ChecksumMismatch` when the payload does not match the checksum.
    pub fn decode(&mut self, src: &mut BytesMut) -> (r: Result<Option<Packet>, TixError>)
        ensures
            buffered(*final(src)) == decode_rest(buffered(*old(src))),
            match decode_step(buffered(*old(src))) {
                DecodeStep::FrameTooLarge => r == Err::<Option<Packet>, TixError>(
                    TixError::FrameTooLarge {
                        size: buffered(*old(src)).len() as usize,
                        max: MAX_FRAME_SIZE,
                    },
                ),
                DecodeStep::NeedMore => r matches Ok(None),
                DecodeStep::BadMagic => r matches Err(TixError::InvalidMagic),
                DecodeStep::PayloadTooLarge(n) => r matches Err(
                    TixError::PayloadTooLarge { size, max },
                ) && max == MAX_PAYLOAD_SIZE && (n <= usize::MAX ==> size == n),
                DecodeStep::ZeroChecksum => r matches Err(TixError::ProtocolViolation(_)),
                DecodeStep::ChecksumMismatch(_) => r matches Err(TixError::ChecksumMismatch),
                DecodeStep::Frame(_, p) => r matches Ok(Some(packet)) && packet@ == p
                    && p.well_formed() && p.checksum_valid(),
            },
    {
        let len = buffer_len(src);
        if len > MAX_FRAME_SIZE {
            return Err(TixError::FrameTooLarge { size: len, max: MAX_FRAME_SIZE });
        }
        if len < HEADER_SIZE {
            return Ok(None);
        }
        let head = buffer_head(src, HEADER_SIZE);
        let ghost bytes = buffered(*src);
        proof {
            let h = head@;
            assert(h.subrange(0, 4) =~= bytes.subrange(0, 4));
            assert(h.subrange(4, 36) =~= bytes.subrange(4, 36));
            assert(h.subrange(36, 40) =~= bytes.subrange(36, 40));
            assert(h.subrange(40, 48) =~= bytes.subrange(40, 48));
            assert(h.subrange(48, 56) =~= bytes.subrange(48, 56));
            assert(h.subrange(56, 64) =~= bytes.subrange(56, 64));
        }
        let header = match PacketHeader::from_bytes(head.as_slice()) {
            Ok(h) => h,
            Err(e) => {
                return Err(e);
            },
        };
        let declared = header.payload_length();
        if declared > MAX_PAYLOAD_SIZE as u64 {
            let size = if declared > usize::MAX as u64 {
                usize::MAX
            } else {
                declared as usize
            };
            return Err(TixError::PayloadTooLarge { size, max: MAX_PAYLOAD_SIZE });
        }
        let payload_len = declared as usize;
        if payload_len > 0 && is_zero_checksum(header.checksum()) {
            return Err(TixError::ProtocolViolation("non-empty payload with zero checksum"));
        }
        let total = HEADER_SIZE + payload_len;
        if len < total {
            buffer_reserve(src, total - len);
            return Ok(None);
        }
        let frame = buffer_split_to(src, total);
        proof {
            let f = frame@;
            assert(f.subrange(0, 4) =~= bytes.subrange(0, 4));
            assert(f.subrange(4, 36) =~= bytes.subrange(4, 36));
            assert(f.subrange(36, 40) =~= bytes.subrange(36, 40));
            assert(f.subrange(40, 48) =~= bytes.subrange(40, 48));
            assert(f.subrange(48, 56) =~= bytes.subrange(48, 56));
            assert(f.subrange(56, 64) =~= bytes.subrange(56, 64));
            assert(f.skip(64) =~= bytes.subrange(64, total as int));
        }
        let packet = match Packet::from_bytes(frame.as_slice()) {
            Ok(p) => p,
            Err(e) => {
                return Err(e);
            },
        };
        Ok(Some(packet))
    }

    /// Appends the frame of `item` to the buffer.
    pub fn encode(&mut self, item: Packet, dst: &mut BytesMut) -> (r: Result<(), TixError>)
        requires
            buffered(*old(dst)).len() + MAX_FRAME_SIZE <= isize::MAX,
        ensures
            r is Ok,
            buffered(*final(dst)) == buffered(*old(dst)) + item@.wire(),
    {
        let bytes = match item.to_bytes() {
            Ok(b) => b,
            Err(e) => {
                return Err(e);
            },
        };
        buffer_extend(dst, bytes.as_slice());
        Ok(())
    }
}

/// A decode attempt on a partial buffer takes nothing: whenever it asks
/// for more bytes or refuses the header, every buffered byte stays.
pub proof fn lemma_partial_buffer_untouched(bytes: Seq<u8>)
    ensures
        !(decode_step(bytes) is Frame) && !(decode_step(bytes) is ChecksumMismatch)
            ==> decode_rest(bytes) == bytes,
        decode_step(bytes) matches DecodeStep::Frame(total, p) ==> total == 64
            + p.payload.len() && total <= bytes.len() && decode_rest(bytes) == bytes.skip(
            total as int,
        ) && p.wire() == bytes.take(total as int),
{
    if let DecodeStep::Frame(total, p) = decode_step(bytes) {
        crate::header::lemma_header_wire_of_parsed(bytes);
        assert(p.wire() =~= bytes.take(total as int));
    }
}

/// Whatever follows a whole frame in the buffer is the buffer after the
/// frame was decoded: the prefix of the next frame is not touched.
pub proof fn lemma_decode_takes_exactly_one_frame(p: PacketView, rest: Seq<u8>)
    requires
        p.well_formed(),
        p.checksum_valid(),
        p.payload.len() > 0 ==> p.header.checksum != zero_checksum(),
        p.wire().len() + rest.len() <= MAX_FRAME_SIZE,
    ensures
        decode_step(p.wire() + rest) == DecodeStep::Frame(p.wire().len(), p),
        decode_rest(p.wire() + rest) == rest,
{
    crate::packet::lemma_packet_roundtrip(p);
    let w = p.wire();
    let all = w + rest;
    assert(all.subrange(0, 4) =~= w.subrange(0, 4));
    assert(all.subrange(4, 36) =~= w.subrange(4, 36));
    assert(all.subrange(36, 40) =~= w.subrange(36, 40));
    assert(all.subrange(40, 48) =~= w.subrange(40, 48));
    assert(all.subrange(48, 56) =~= w.subrange(48, 56));
    assert(all.subrange(56, 64) =~= w.subrange(56, 64));
    assert(HeaderView::of_wire(all) == HeaderView::of_wire(w));
    assert(all.subrange(64, w.len() as int) =~= p.payload);
    assert(all.skip(w.len() as int) =~= rest);
}

} // verus!
