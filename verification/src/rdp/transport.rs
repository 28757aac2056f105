//! The datagram framing of screen frames.
//!
//! A frame travels as one header datagram of exactly 33 bytes, then its
//! payload in chunks, each a datagram of a 12-byte chunk header and at
//! most `MTU - 12` bytes. All integers are little-endian.
//!
//! ```text
//! frame header:  sequence u32 | frame_number u64 | timestamp_us u64 |
//!                width u32 | height u32 | is_full_frame u8 | total_chunks u32
//! chunk header:  sequence u32 | chunk_index u32 | chunk_size u32
//! ```
//!
//! This module lays the datagrams out and puts them together again; the
//! socket is the caller's.

use vstd::prelude::*;
use vstd::bytes::{
    lemma_auto_spec_u32_to_from_le_bytes, lemma_auto_spec_u64_to_from_le_bytes,
    spec_u32_from_le_bytes, spec_u32_to_le_bytes, spec_u64_from_le_bytes, spec_u64_to_le_bytes,
    u32_from_le_bytes, u32_to_le_bytes, u64_from_le_bytes, u64_to_le_bytes,
};
use vstd::slice::{slice_subrange, slice_to_vec};
use vstd::string::StringExecFns;
use std::time::Instant;
use crate::error::TixError;
use crate::rdp::encoder::EncodedFrame;
use crate::wire::put;

verus! {

/// The default MTU: 1500 less the IP and UDP headers, with some room.
pub const DEFAULT_MTU: usize = 1400;

/// Size of a frame header on the wire.
pub const FRAME_HEADER_SIZE: usize = 33;

/// Size of a chunk header on the wire.
pub const CHUNK_HEADER_SIZE: usize = 12;

/// What the first datagram of a frame says of it.
#[derive(Debug, Clone, Copy, PartialEq, Eq, Structural)]
pub struct FrameHeader {
    pub sequence: u32,
    pub frame_number: u64,
    pub timestamp_us: u64,
    pub width: u32,
    pub height: u32,
    pub is_full_frame: bool,
    pub total_chunks: u32,
}

/// What each datagram of payload starts with.
#[derive(Debug, Clone, Copy, PartialEq, Eq, Structural)]
pub struct ChunkHeader {
    pub sequence: u32,
    pub chunk_index: u32,
    pub chunk_size: u32,
}

impl FrameHeader {
    /// The 33 bytes of the header.
    pub open spec fn wire(self) -> Seq<u8> {
        spec_u32_to_le_bytes(self.sequence) + spec_u64_to_le_bytes(self.frame_number)
            + spec_u64_to_le_bytes(self.timestamp_us) + spec_u32_to_le_bytes(self.width)
            + spec_u32_to_le_bytes(self.height) + seq![
            if self.is_full_frame {
                1u8
            } else {
                0u8
            },
        ] + spec_u32_to_le_bytes(self.total_chunks)
    }

    /// The header that the first 33 bytes of `data` hold.
    pub open spec fn of_wire(data: Seq<u8>) -> FrameHeader {
        FrameHeader {
            sequence: spec_u32_from_le_bytes(data.subrange(0, 4)),
            frame_number: spec_u64_from_le_bytes(data.subrange(4, 12)),
            timestamp_us: spec_u64_from_le_bytes(data.subrange(12, 20)),
            width: spec_u32_from_le_bytes(data.subrange(20, 24)),
            height: spec_u32_from_le_bytes(data.subrange(24, 28)),
            is_full_frame: data[28] != 0,
            total_chunks: spec_u32_from_le_bytes(data.subrange(29, 33)),
        }
    }

    /// The header as 33 bytes.
    pub fn encode(&self) -> (r: [u8; 33])
        ensures
            r@ == self.wire(),
    {
        proof {
            lemma_auto_spec_u32_to_from_le_bytes();
            lemma_auto_spec_u64_to_from_le_bytes();
        }
        let mut buf = [0u8; 33];
        let a = u32_to_le_bytes(self.sequence);
        put(&mut buf, 0, a.as_slice());
        let b = u64_to_le_bytes(self.frame_number);
        put(&mut buf, 4, b.as_slice());
        let c = u64_to_le_bytes(self.timestamp_us);
        put(&mut buf, 12, c.as_slice());
        let d = u32_to_le_bytes(self.width);
        put(&mut buf, 20, d.as_slice());
        let e = u32_to_le_bytes(self.height);
        put(&mut buf, 24, e.as_slice());
        buf[28] = if self.is_full_frame {
            1
        } else {
            0
        };
        let f = u32_to_le_bytes(self.total_chunks);
        put(&mut buf, 29, f.as_slice());
        assert(buf@ =~= self.wire());
        buf
    }

    /// Reads a header from the first 33 bytes of `data`; fewer bytes are
    /// an `Other` error. Any non-zero flag byte reads as a full frame.
    pub fn decode(data: &[u8]) -> (r: Result<FrameHeader, TixError>)
        ensures
            match r {
                Ok(h) => data@.len() >= 33 && h == FrameHeader::of_wire(data@),
                Err(e) => data@.len() < 33 && e is Other,
            },
    {
        if data.len() < FRAME_HEADER_SIZE {
            return Err(TixError::Other(String::from_str("FrameHeader too short")));
        }
        Ok(
            FrameHeader {
                sequence: u32_from_le_bytes(slice_subrange(data, 0, 4)),
                frame_number: u64_from_le_bytes(slice_subrange(data, 4, 12)),
                timestamp_us: u64_from_le_bytes(slice_subrange(data, 12, 20)),
                width: u32_from_le_bytes(slice_subrange(data, 20, 24)),
                height: u32_from_le_bytes(slice_subrange(data, 24, 28)),
                is_full_frame: data[28] != 0,
                total_chunks: u32_from_le_bytes(slice_subrange(data, 29, 33)),
            },
        )
    }
}

impl ChunkHeader {
    /// The 12 bytes of the header.
    pub open spec fn wire(self) -> Seq<u8> {
        spec_u32_to_le_bytes(self.sequence) + spec_u32_to_le_bytes(self.chunk_index)
            + spec_u32_to_le_bytes(self.chunk_size)
    }

    /// The header that the first 12 bytes of `data` hold.
    pub open spec fn of_wire(data: Seq<u8>) -> ChunkHeader {
        ChunkHeader {
            sequence: spec_u32_from_le_bytes(data.subrange(0, 4)),
            chunk_index: spec_u32_from_le_bytes(data.subrange(4, 8)),
            chunk_size: spec_u32_from_le_bytes(data.subrange(8, 12)),
        }
    }

    /// The header as 12 bytes.
    pub fn encode(&self) -> (r: [u8; 12])
        ensures
            r@ == self.wire(),
    {
        proof {
            lemma_auto_spec_u32_to_from_le_bytes();
        }
        let mut buf = [0u8; 12];
        let a = u32_to_le_bytes(self.sequence);
        put(&mut buf, 0, a.as_slice());
        let b = u32_to_le_bytes(self.chunk_index);
        put(&mut buf, 4, b.as_slice());
        let c = u32_to_le_bytes(self.chunk_size);
        put(&mut buf, 8, c.as_slice());
        assert(buf@ =~= self.wire());
        buf
    }

    /// Reads a header from the first 12 bytes of `data`; fewer bytes are
    /// an `Other` error.
    pub fn decode(data: &[u8]) -> (r: Result<ChunkHeader, TixError>)
        ensures
            match r {
                Ok(h) => data@.len() >= 12 && h == ChunkHeader::of_wire(data@),
                Err(e) => data@.len() < 12 && e is Other,
            },
    {
        if data.len() < CHUNK_HEADER_SIZE {
            return Err(TixError::Other(String::from_str("ChunkHeader too short")));
        }
        Ok(
            ChunkHeader {
                sequence: u32_from_le_bytes(slice_subrange(data, 0, 4)),
                chunk_index: u32_from_le_bytes(slice_subrange(data, 4, 8)),
                chunk_size: u32_from_le_bytes(slice_subrange(data, 8, 12)),
            },
        )
    }
}

/// A frame header is read back from its own bytes, whatever follows
/// them.
pub proof fn lemma_frame_header_roundtrip(h: FrameHeader, rest: Seq<u8>)
    ensures
        h.wire().len() == 33,
        FrameHeader::of_wire(h.wire() + rest) == h,
{
    lemma_auto_spec_u32_to_from_le_bytes();
    lemma_auto_spec_u64_to_from_le_bytes();
    let w = h.wire() + rest;
    assert(w.subrange(0, 4) =~= spec_u32_to_le_bytes(h.sequence));
    assert(w.subrange(4, 12) =~= spec_u64_to_le_bytes(h.frame_number));
    assert(w.subrange(12, 20) =~= spec_u64_to_le_bytes(h.timestamp_us));
    assert(w.subrange(20, 24) =~= spec_u32_to_le_bytes(h.width));
    assert(w.subrange(24, 28) =~= spec_u32_to_le_bytes(h.height));
    assert(w.subrange(29, 33) =~= spec_u32_to_le_bytes(h.total_chunks));
}

/// A chunk header is read back from its own bytes, whatever follows
/// them.
pub proof fn lemma_chunk_header_roundtrip(h: ChunkHeader, rest: Seq<u8>)
    ensures
        h.wire().len() == 12,
        ChunkHeader::of_wire(h.wire() + rest) == h,
{
    lemma_auto_spec_u32_to_from_le_bytes();
    let w = h.wire() + rest;
    assert(w.subrange(0, 4) =~= spec_u32_to_le_bytes(h.sequence));
    assert(w.subrange(4, 8) =~= spec_u32_to_le_bytes(h.chunk_index));
    assert(w.subrange(8, 12) =~= spec_u32_to_le_bytes(h.chunk_size));
}

/// Whether datagrams can be sized by `mtu`: a chunk must hold a byte or
/// more besides its 12-byte header, and its size must fit the header's
/// field.
pub open spec fn valid_mtu(mtu: nat) -> bool {
    12 < mtu && mtu - 12 <= u32::MAX
}

/// The number of chunks of at most `cap` bytes that `len` bytes need.
pub open spec fn chunks_needed(len: nat, cap: nat) -> nat {
    if cap == 0 {
        0
    } else if len % cap == 0 {
        len / cap
    } else {
        len / cap + 1
    }
}

/// The bytes of chunk `i` of `data`, cut into chunks of `cap` bytes.
pub open spec fn chunk_bytes(data: Seq<u8>, cap: nat, i: nat) -> Seq<u8> {
    data.subrange(
        (i * cap) as int,
        if (i + 1) * cap <= data.len() {
            ((i + 1) * cap) as int
        } else {
            data.len() as int
        },
    )
}

/// The datagram of chunk `i`: its header, then its bytes.
pub open spec fn chunk_datagram(data: Seq<u8>, sequence: u32, cap: nat, i: nat) -> Seq<u8> {
    (ChunkHeader {
        sequence,
        chunk_index: i as u32,
        chunk_size: chunk_bytes(data, cap, i).len() as u32,
    }).wire() + chunk_bytes(data, cap, i)
}

/// The header that announces `frame`.
pub open spec fn frame_header_for(
    frame: EncodedFrame,
    sequence: u32,
    timestamp_us: u64,
    mtu: nat,
) -> FrameHeader {
    FrameHeader {
        sequence,
        frame_number: frame.frame_number,
        timestamp_us,
        width: frame.width,
        height: frame.height,
        is_full_frame: frame.is_full_frame,
        total_chunks: chunks_needed(frame.data@.len(), (mtu - 12) as nat) as u32,
    }
}

/// The datagrams of a frame in the order in which they are sent: the
/// header, then the chunks by ascending index.
pub open spec fn frame_datagrams(
    frame: EncodedFrame,
    sequence: u32,
    timestamp_us: u64,
    mtu: nat,
) -> Seq<Seq<u8>> {
    Seq::new(
        1 + chunks_needed(frame.data@.len(), (mtu - 12) as nat),
        |k: int|
            if k == 0 {
                frame_header_for(frame, sequence, timestamp_us, mtu).wire()
            } else {
                chunk_datagram(frame.data@, sequence, (mtu - 12) as nat, (k - 1) as nat)
            },
    )
}

/// A chunk index below the number of chunks starts inside the data, and
/// every chunk holds between one byte and `cap` bytes.
pub proof fn lemma_chunk_inside(len: nat, cap: nat, i: nat)
    requires
        cap > 0,
        i < chunks_needed(len, cap),
    ensures
        i * cap < len,
        chunks_needed(len, cap) <= len,
{
    vstd::arithmetic::div_mod::lemma_fundamental_div_mod(len as int, cap as int);
    let q = len / cap;
    let r = len % cap;
    assert(0 <= r < cap);
    assert(i * cap < len) by (nonlinear_arith)
        requires
            len == cap * q + r,
            0 <= r < cap,
            0 <= q,
            (r == 0 && i < q) || (r > 0 && i <= q),
    ;
    assert(chunks_needed(len, cap) <= len) by (nonlinear_arith)
        requires
            len == cap * q + r,
            0 <= r < cap,
            0 <= q,
            cap > 0,
            chunks_needed(len, cap) == (if r == 0 {
                q
            } else {
                q + 1
            }),
    ;
}

/// Computes the number of chunks that `len` bytes need.
fn count_chunks(len: usize, cap: usize) -> (n: usize)
    requires
        cap > 0,
    ensures
        n == chunks_needed(len as nat, cap as nat),
{
    let q = len / cap;
    proof {
        vstd::arithmetic::div_mod::lemma_fundamental_div_mod(len as int, cap as int);
        assert(q <= len && (len % cap != 0 ==> q < len)) by (nonlinear_arith)
            requires
                len == cap * q + (len % cap) as int,
                0 <= (len % cap) as int,
                cap > 0,
                q >= 0,
        ;
    }
    if len % cap != 0 {
        q + 1
    } else {
        q
    }
}

/// The views of the datagrams of a list.
pub open spec fn datagram_views(datagrams: Seq<Vec<u8>>) -> Seq<Seq<u8>> {
    Seq::new(datagrams.len(), |i: int| datagrams[i]@)
}

/// The sending side of the transport: the sequence counter, the MTU and
/// the count of bytes laid out for sending.
pub struct FrameSender {
    sequence: u32,
    mtu: usize,
    bytes_sent: u64,
}

impl FrameSender {
    #[verifier::type_invariant]
    spec fn mtu_is_valid(&self) -> bool {
        valid_mtu(self.mtu as nat)
    }

    /// The sequence number that the next frame gets.
    pub closed spec fn next_sequence(&self) -> u32 {
        self.sequence
    }

    /// The MTU in use.
    pub closed spec fn spec_mtu(&self) -> nat {
        self.mtu as nat
    }

    /// The bytes laid out for sending so far, modulo 2^64.
    pub closed spec fn spec_bytes_sent(&self) -> u64 {
        self.bytes_sent
    }

    /// Whether `send_frame` can take the frame: the count of its chunks
    /// fits the header's field.
    pub open spec fn can_send(&self, frame: EncodedFrame) -> bool {
        chunks_needed(frame.data@.len(), (self.spec_mtu() - 12) as nat) <= u32::MAX
    }

    /// A sender that starts at sequence 0 with the default MTU.
    pub fn new() -> (r: FrameSender)
        ensures
            r.next_sequence() == 0,
            r.spec_mtu() == DEFAULT_MTU,
            r.spec_bytes_sent() == 0,
    {
        FrameSender { sequence: 0, mtu: DEFAULT_MTU, bytes_sent: 0 }
    }

    /// Sets the MTU, which must leave room for a chunk header and a byte
    /// of payload or more.
    pub fn with_mtu(self, mtu: usize) -> (r: FrameSender)
        requires
            valid_mtu(mtu as nat),
        ensures
            r.next_sequence() == self.next_sequence(),
            r.spec_mtu() == mtu,
            r.spec_bytes_sent() == self.spec_bytes_sent(),
    {
        FrameSender { sequence: self.sequence, mtu, bytes_sent: self.bytes_sent }
    }

    /// The MTU in use.
    pub fn mtu(&self) -> (r: usize)
        ensures
            r == self.spec_mtu(),
            valid_mtu(r as nat),
    {
        proof {
            use_type_invariant(self);
        }
        self.mtu
    }

    /// The bytes laid out for sending so far.
    pub fn bytes_sent(&self) -> (r: u64)
        ensures
            r == self.spec_bytes_sent(),
    {
        self.bytes_sent
    }

    /// Whether `send_frame` can take the frame.
    pub fn fits(&self, frame: &EncodedFrame) -> (r: bool)
        ensures
            r == self.can_send(*frame),
    {
        proof {
            use_type_invariant(self);
        }
        let n = count_chunks(frame.data.len(), self.mtu - CHUNK_HEADER_SIZE);
        n <= u32::MAX as usize
    }

    /// Lays out the datagrams of a frame: takes the next sequence number
    /// (the counter wraps), makes the header datagram and the chunk
    /// datagrams, and adds their sizes to the count of bytes sent (which
    /// wraps too).
    pub fn send_frame(&mut self, frame: &EncodedFrame, timestamp_us: u64) -> (r: Vec<Vec<u8>>)
        requires
            old(self).can_send(*frame),
        ensures
            final(self).spec_mtu() == old(self).spec_mtu(),
            final(self).next_sequence() == (if old(self).next_sequence() == u32::MAX {
                0u32
            } else {
                (old(self).next_sequence() + 1) as u32
            }),
            datagram_views(r@) == frame_datagrams(
                *frame,
                old(self).next_sequence(),
                timestamp_us,
                old(self).spec_mtu(),
            ),
            final(self).spec_bytes_sent() == wrapped_sum(
                old(self).spec_bytes_sent(),
                33 + 12 * (r@.len() - 1) + frame.data@.len(),
            ),
    {
        proof {
            use_type_invariant(&*self);
        }
        let seq = self.sequence;
        let cap = self.mtu - CHUNK_HEADER_SIZE;
        let out = lay_out(frame, seq, timestamp_us, cap);
        let total = out.len() - 1;
        let sent: u128 = 33 + 12 * (total as u128) + frame.data.len() as u128;
        self.sequence = if seq == u32::MAX {
            0
        } else {
            seq + 1
        };
        self.bytes_sent = ((self.bytes_sent as u128 + sent) % 0x1_0000_0000_0000_0000u128) as u64;
        out
    }
}

/// The sum of a counter and an addition, wrapped to 64 bits.
pub open spec fn wrapped_sum(counter: u64, added: int) -> u64 {
    ((counter + added) % 0x1_0000_0000_0000_0000) as u64
}

/// Lays out the header datagram and the chunk datagrams of a frame, for
/// chunks of at most `cap` bytes.
fn lay_out(frame: &EncodedFrame, seq: u32, timestamp_us: u64, cap: usize) -> (out: Vec<Vec<u8>>)
    requires
        0 < cap <= u32::MAX,
        chunks_needed(frame.data@.len(), cap as nat) <= u32::MAX,
    ensures
        out@.len() == 1 + chunks_needed(frame.data@.len(), cap as nat),
        datagram_views(out@) == frame_datagrams(*frame, seq, timestamp_us, (cap + 12) as nat),
{
    let len = frame.data.len();
    let total = count_chunks(len, cap);
    let header = FrameHeader {
        sequence: seq,
        frame_number: frame.frame_number,
        timestamp_us,
        width: frame.width,
        height: frame.height,
        is_full_frame: frame.is_full_frame,
        total_chunks: total as u32,
    };
    let mut out: Vec<Vec<u8>> = Vec::new();
    let head = header.encode();
    out.push(slice_to_vec(head.as_slice()));
    let mut idx: usize = 0;
    while idx < total
        invariant
            idx <= total,
            0 < cap <= u32::MAX,
            len == frame.data@.len(),
            total == chunks_needed(len as nat, cap as nat),
            total <= u32::MAX,
            out@.len() == 1 + idx,
            out@[0]@ == header.wire(),
            forall|k: int|
                1 <= k <= idx ==> (#[trigger] out@[k])@ == chunk_datagram(
                    frame.data@,
                    seq,
                    cap as nat,
                    (k - 1) as nat,
                ),
        decreases total - idx,
    {
        let pkt = chunk_packet(frame.data.as_slice(), seq, cap, idx);
        out.push(pkt);
        idx += 1;
    }
    assert(datagram_views(out@) =~= frame_datagrams(*frame, seq, timestamp_us, (cap + 12) as nat));
    out
}

/// The datagram of chunk `idx` of `data`: the chunk header, then the
/// bytes of the chunk.
fn chunk_packet(data: &[u8], seq: u32, cap: usize, idx: usize) -> (pkt: Vec<u8>)
    requires
        0 < cap <= u32::MAX,
        idx < chunks_needed(data@.len(), cap as nat),
        idx <= u32::MAX,
    ensures
        pkt@ == chunk_datagram(data@, seq, cap as nat, idx as nat),
{
    let len = data.len();
    proof {
        lemma_chunk_inside(len as nat, cap as nat, idx as nat);
        assert((idx + 1) * cap == idx * cap + cap) by (nonlinear_arith);
    }
    let from = idx * cap;
    let to = if len - from < cap {
        len
    } else {
        from + cap
    };
    let chunk = slice_subrange(data, from, to);
    assert(chunk@ == chunk_bytes(data@, cap as nat, idx as nat));
    let ch = ChunkHeader { sequence: seq, chunk_index: idx as u32, chunk_size: (to - from) as u32 };
    let mut pkt: Vec<u8> = Vec::new();
    let hb = ch.encode();
    pkt.extend_from_slice(hb.as_slice());
    pkt.extend_from_slice(chunk);
    pkt
}

/// The chunks reach the end of the data: the last chunk ends where the
/// data ends.
pub proof fn lemma_chunks_cover(len: nat, cap: nat)
    requires
        cap > 0,
    ensures
        chunks_needed(len, cap) * cap >= len,
{
    vstd::arithmetic::div_mod::lemma_fundamental_div_mod(len as int, cap as int);
    let q = len / cap;
    let r = len % cap;
    assert(chunks_needed(len, cap) * cap >= len) by (nonlinear_arith)
        requires
            len == cap * q + r,
            0 <= r < cap,
            0 <= q,
            chunks_needed(len, cap) == (if r == 0 {
                q
            } else {
                q + 1
            }),
    ;
}

/// The state of reassembly as mathematical values: the header of the
/// frame under way and one slot for each of its chunks.
pub struct AssemblerView {
    pub header: FrameHeader,
    pub slots: Seq<Option<Seq<u8>>>,
}

/// The number of filled slots among the first `n`.
pub open spec fn filled(slots: Seq<Option<Seq<u8>>>, n: nat) -> nat
    decreases n,
{
    if n == 0 {
        0
    } else {
        filled(slots, (n - 1) as nat) + (if slots[n - 1] is Some {
            1nat
        } else {
            0nat
        })
    }
}

/// The bytes of the first `n` slots, one after the other; an empty slot
/// adds nothing.
pub open spec fn joined(slots: Seq<Option<Seq<u8>>>, n: nat) -> Seq<u8>
    decreases n,
{
    if n == 0 {
        Seq::empty()
    } else {
        joined(slots, (n - 1) as nat) + (match slots[n - 1] {
            Some(bytes) => bytes,
            None => Seq::empty(),
        })
    }
}

impl AssemblerView {
    /// The state that a frame header datagram starts: every slot empty.
    /// A datagram is a frame header when it has exactly 33 bytes.
    pub open spec fn begun(datagram: Seq<u8>) -> Option<AssemblerView> {
        if datagram.len() == 33 {
            Some(
                AssemblerView {
                    header: FrameHeader::of_wire(datagram),
                    slots: Seq::new(
                        FrameHeader::of_wire(datagram).total_chunks as nat,
                        |i: int| None::<Seq<u8>>,
                    ),
                },
            )
        } else {
            None
        }
    }

    /// What a datagram does to the state.
    pub open spec fn offer_kind(self, datagram: Seq<u8>) -> Offer {
        if datagram.len() < 12 {
            Offer::Ignored
        } else {
            let ch = ChunkHeader::of_wire(datagram);
            if ch.sequence == self.header.sequence {
                if ch.chunk_index < self.slots.len() && self.slots[ch.chunk_index as int] is None {
                    Offer::Stored
                } else {
                    Offer::Ignored
                }
            } else if datagram.len() == 33 {
                Offer::Restarted
            } else {
                Offer::Ignored
            }
        }
    }

    /// The state after a datagram was offered.
    pub open spec fn offered(self, datagram: Seq<u8>) -> AssemblerView {
        match self.offer_kind(datagram) {
            Offer::Ignored => self,
            Offer::Stored => AssemblerView {
                slots: self.slots.update(
                    ChunkHeader::of_wire(datagram).chunk_index as int,
                    Some(datagram.skip(12)),
                ),
                ..self
            },
            Offer::Restarted => AssemblerView::begun(datagram).unwrap(),
        }
    }

    /// Whether every slot is filled.
    pub open spec fn complete(self) -> bool {
        filled(self.slots, self.slots.len()) == self.slots.len()
    }

    /// The payload: the chunks by ascending index.
    pub open spec fn payload(self) -> Seq<u8> {
        joined(self.slots, self.slots.len())
    }
}

/// What became of a datagram that was offered to the assembler.
#[derive(Debug, Clone, Copy, PartialEq, Eq, Structural)]
pub enum Offer {
    /// Too short for a chunk header, of another sequence, out of range, or
    /// a duplicate: nothing changed.
    Ignored,
    /// A chunk of the frame under way that was still missing: stored.
    Stored,
    /// The header of another frame: the partial frame was dropped and the
    /// new frame begun.
    Restarted,
}

/// Filling an empty slot adds one to the count of filled slots and
/// changes no other slot.
proof fn lemma_filled_update(slots: Seq<Option<Seq<u8>>>, at: int, bytes: Seq<u8>, n: nat)
    requires
        0 <= at < slots.len(),
        slots[at] is None,
        n <= slots.len(),
    ensures
        filled(slots.update(at, Some(bytes)), n) == filled(slots, n) + (if at < n {
            1nat
        } else {
            0nat
        }),
    decreases n,
{
    if n > 0 {
        lemma_filled_update(slots, at, bytes, (n - 1) as nat);
    }
}

/// No more slots are filled than there are.
proof fn lemma_filled_bound(slots: Seq<Option<Seq<u8>>>, n: nat)
    ensures
        filled(slots, n) <= n,
    decreases n,
{
    if n > 0 {
        lemma_filled_bound(slots, (n - 1) as nat);
    }
}

/// Blank slots hold nothing.
proof fn lemma_filled_blank(slots: Seq<Option<Seq<u8>>>, n: nat)
    requires
        n <= slots.len(),
        forall|i: int| 0 <= i < slots.len() ==> slots[i] is None,
    ensures
        filled(slots, n) == 0,
    decreases n,
{
    if n > 0 {
        lemma_filled_blank(slots, (n - 1) as nat);
    }
}

/// Puts the chunks of a frame together again.
///
/// The caller reads datagrams from the socket. The first datagram of
/// exactly 33 bytes begins a frame; every datagram after it is offered
/// until the frame is complete. A lost chunk stalls the frame until the
/// header of another frame arrives, which drops the partial frame and
/// begins the new one.
pub struct FrameAssembler {
    header: FrameHeader,
    chunks: Vec<Option<Vec<u8>>>,
    received: usize,
}

impl View for FrameAssembler {
    type V = AssemblerView;

    closed spec fn view(&self) -> AssemblerView {
        AssemblerView {
            header: self.header,
            slots: Seq::new(
                self.chunks@.len(),
                |i: int|
                    match self.chunks@[i] {
                        Some(v) => Some(v@),
                        None => None,
                    },
            ),
        }
    }
}

impl FrameAssembler {
    /// There is one slot for each chunk that the header announces, and the
    /// count of received chunks is the count of filled slots. Every
    /// assembler that `begin` makes is well-formed and stays so.
    pub closed spec fn well_formed(&self) -> bool {
        &&& self.chunks@.len() == self.header.total_chunks
        &&& self.received == filled(self@.slots, self.chunks@.len())
    }

    /// Begins a frame from its header datagram. A datagram that is not
    /// exactly 33 bytes long is no frame header: `None`.
    pub fn begin(datagram: &[u8]) -> (r: Option<FrameAssembler>)
        ensures
            match r {
                Some(a) => AssemblerView::begun(datagram@) == Some(a@) && a.well_formed(),
                None => AssemblerView::begun(datagram@).is_none(),
            },
    {
        if datagram.len() != FRAME_HEADER_SIZE {
            return None;
        }
        let header = match FrameHeader::decode(datagram) {
            Ok(h) => h,
            Err(_) => {
                return None;
            },
        };
        let total = header.total_chunks as usize;
        let mut chunks: Vec<Option<Vec<u8>>> = Vec::new();
        let mut i: usize = 0;
        while i < total
            invariant
                i <= total,
                chunks@.len() == i,
                forall|j: int| 0 <= j < i ==> chunks@[j] is None,
            decreases total - i,
        {
            chunks.push(None);
            i += 1;
        }
        let a = FrameAssembler { header, chunks, received: 0 };
        proof {
            assert(a@.slots =~= Seq::new(total as nat, |i: int| None::<Seq<u8>>));
            lemma_filled_blank(a@.slots, total as nat);
        }
        Some(a)
    }

    /// The header of the frame under way.
    pub fn header(&self) -> (r: FrameHeader)
        ensures
            r == self@.header,
    {
        self.header
    }

    /// Whether every chunk of the frame is there.
    pub fn is_complete(&self) -> (r: bool)
        requires
            self.well_formed(),
        ensures
            r == self@.complete(),
            self@.slots.len() == self@.header.total_chunks,
    {
        self.received == self.chunks.len()
    }

    /// Offers a datagram.
    ///
    /// A chunk of the frame under way that is still missing is stored; its
    /// payload is what follows the 12 bytes of the chunk header. A
    /// datagram of exactly 33 bytes with another sequence number is the
    /// header of another frame and begins that frame. Everything else is
    /// ignored: datagrams shorter than a chunk header, chunks of another
    /// sequence, indices out of range and duplicates.
    pub fn offer(&mut self, datagram: &[u8]) -> (r: Offer)
        requires
            old(self).well_formed(),
        ensures
            final(self).well_formed(),
            r == old(self)@.offer_kind(datagram@),
            final(self)@ == old(self)@.offered(datagram@),
    {
        if datagram.len() < CHUNK_HEADER_SIZE {
            return Offer::Ignored;
        }
        let ch = match ChunkHeader::decode(datagram) {
            Ok(c) => c,
            Err(_) => {
                return Offer::Ignored;
            },
        };
        if ch.sequence != self.header.sequence {
            if datagram.len() == FRAME_HEADER_SIZE {
                match FrameAssembler::begin(datagram) {
                    Some(fresh) => {
                        *self = fresh;
                        return Offer::Restarted;
                    },
                    None => {
                        return Offer::Ignored;
                    },
                }
            }
            return Offer::Ignored;
        }
        let idx = ch.chunk_index as usize;
        if idx >= self.chunks.len() {
            return Offer::Ignored;
        }
        if self.chunks[idx].is_some() {
            return Offer::Ignored;
        }
        let payload = slice_to_vec(slice_subrange(datagram, CHUNK_HEADER_SIZE, datagram.len()));
        let ghost before = self@.slots;
        proof {
            lemma_filled_update(before, idx as int, payload@, before.len());
            lemma_filled_bound(before.update(idx as int, Some(payload@)), before.len());
        }
        assert(payload@ =~= datagram@.skip(12));
        self.chunks.set(idx, Some(payload));
        self.received = self.received + 1;
        assert(self@.slots =~= before.update(idx as int, Some(datagram@.skip(12))));
        Offer::Stored
    }

    /// The frame that the chunks make, stamped with `now`. The count of
    /// blocks is not carried by the transport and is zero.
    pub fn finish(self, now: Instant) -> (r: EncodedFrame)
        requires
            self.well_formed(),
            self@.complete(),
        ensures
            r.frame_number == self@.header.frame_number,
            r.width == self@.header.width,
            r.height == self@.header.height,
            r.is_full_frame == self@.header.is_full_frame,
            r.data@ == self@.payload(),
            r.timestamp == now,
            r.block_count == 0,
    {
        let mut data: Vec<u8> = Vec::new();
        let mut i: usize = 0;
        while i < self.chunks.len()
            invariant
                i <= self.chunks@.len(),
                self@.slots.len() == self.chunks@.len(),
                data@ == joined(self@.slots, i as nat),
            decreases self.chunks@.len() - i,
        {
            match &self.chunks[i] {
                Some(chunk) => {
                    data.extend_from_slice(chunk.as_slice());
                },
                None => {
                    assert(data@ + Seq::<u8>::empty() =~= data@);
                },
            }
            i += 1;
        }
        EncodedFrame {
            frame_number: self.header.frame_number,
            timestamp: now,
            width: self.header.width,
            height: self.header.height,
            data,
            is_full_frame: self.header.is_full_frame,
            block_count: 0,
        }
    }
}

/// The state of reassembly after the header datagram of a frame and its
/// first `n` chunk datagrams arrived in the order in which they were
/// sent.
pub open spec fn received_in_order(datagrams: Seq<Seq<u8>>, n: nat) -> AssemblerView
    decreases n,
{
    if n == 0 {
        AssemblerView::begun(datagrams[0]).unwrap()
    } else {
        received_in_order(datagrams, (n - 1) as nat).offered(datagrams[n as int])
    }
}

/// A frame that is sent and then received is the same frame: the
/// datagrams of a frame, offered in the order in which they were sent,
/// begin a frame, complete it, and give back the frame number, the
/// dimensions, the full-frame flag and the data of the frame that was
/// sent.
pub proof fn lemma_sent_frame_is_received(
    frame: EncodedFrame,
    sequence: u32,
    timestamp_us: u64,
    mtu: nat,
)
    requires
        valid_mtu(mtu),
        chunks_needed(frame.data@.len(), (mtu - 12) as nat) <= u32::MAX,
    ensures
        ({
            let datagrams = frame_datagrams(frame, sequence, timestamp_us, mtu);
            let end = received_in_order(datagrams, (datagrams.len() - 1) as nat);
            &&& AssemblerView::begun(datagrams[0]) is Some
            &&& end.complete()
            &&& end.payload() == frame.data@
            &&& end.header.frame_number == frame.frame_number
            &&& end.header.width == frame.width
            &&& end.header.height == frame.height
            &&& end.header.is_full_frame == frame.is_full_frame
        }),
{
    let cap = (mtu - 12) as nat;
    let total = chunks_needed(frame.data@.len(), cap);
    let datagrams = frame_datagrams(frame, sequence, timestamp_us, mtu);
    lemma_frame_header_roundtrip(
        frame_header_for(frame, sequence, timestamp_us, mtu),
        Seq::empty(),
    );
    assert(datagrams[0] + Seq::<u8>::empty() =~= datagrams[0]);
    lemma_receiving(frame, sequence, timestamp_us, mtu, total);
    let end = received_in_order(datagrams, total);
    lemma_all_filled(end.slots, total);
    lemma_joined_chunks(frame.data@, cap, end.slots, total);
    lemma_chunks_cover(frame.data@.len(), cap);
    assert(frame.data@.subrange(0, frame.data@.len() as int) =~= frame.data@);
}

/// After the first `n` chunks arrived in order, the first `n` slots hold
/// these chunks and the others are empty.
proof fn lemma_receiving(frame: EncodedFrame, sequence: u32, timestamp_us: u64, mtu: nat, n: nat)
    requires
        valid_mtu(mtu),
        chunks_needed(frame.data@.len(), (mtu - 12) as nat) <= u32::MAX,
        n <= chunks_needed(frame.data@.len(), (mtu - 12) as nat),
    ensures
        ({
            let datagrams = frame_datagrams(frame, sequence, timestamp_us, mtu);
            let state = received_in_order(datagrams, n);
            &&& state.header == frame_header_for(frame, sequence, timestamp_us, mtu)
            &&& state.slots.len() == chunks_needed(frame.data@.len(), (mtu - 12) as nat)
            &&& forall|i: int|
                0 <= i < n ==> state.slots[i] == Some(
                    chunk_bytes(frame.data@, (mtu - 12) as nat, i as nat),
                )
            &&& forall|i: int| n <= i < state.slots.len() ==> state.slots[i] is None
        }),
    decreases n,
{
    let cap = (mtu - 12) as nat;
    let total = chunks_needed(frame.data@.len(), cap);
    let datagrams = frame_datagrams(frame, sequence, timestamp_us, mtu);
    let header = frame_header_for(frame, sequence, timestamp_us, mtu);
    if n == 0 {
        lemma_frame_header_roundtrip(header, Seq::empty());
        assert(datagrams[0] + Seq::<u8>::empty() =~= datagrams[0]);
    } else {
        lemma_receiving(frame, sequence, timestamp_us, mtu, (n - 1) as nat);
        let before = received_in_order(datagrams, (n - 1) as nat);
        let bytes = chunk_bytes(frame.data@, cap, (n - 1) as nat);
        let ch = ChunkHeader {
            sequence,
            chunk_index: (n - 1) as u32,
            chunk_size: bytes.len() as u32,
        };
        let d = datagrams[n as int];
        assert(d == ch.wire() + bytes);
        lemma_chunk_header_roundtrip(ch, bytes);
        assert(d.skip(12) =~= bytes);
        assert(before.offer_kind(d) == Offer::Stored);
    }
}

/// Whether `order` names each of `total` chunks exactly once.
pub open spec fn each_chunk_once(order: Seq<int>, total: nat) -> bool {
    &&& order.len() == total
    &&& order.no_duplicates()
    &&& forall|k: int| 0 <= k < order.len() ==> 0 <= #[trigger] order[k] < total
}

/// The state of reassembly after the header datagram of a frame and then
/// `n` of its chunk datagrams arrived, the chunks in the order that
/// `order` gives: the `k`-th to arrive is chunk `order[k]`.
pub open spec fn received_as(datagrams: Seq<Seq<u8>>, order: Seq<int>, n: nat) -> AssemblerView
    decreases n,
{
    if n == 0 {
        AssemblerView::begun(datagrams[0]).unwrap()
    } else {
        received_as(datagrams, order, (n - 1) as nat).offered(datagrams[1 + order[n - 1]])
    }
}

/// A frame that is sent and then received is the same frame, in whatever
/// order its chunks arrive: after the header datagram and then every
/// chunk datagram once, the frame is complete and gives back the frame
/// number, the dimensions, the full-frame flag and the data of the frame
/// that was sent. The chunks are put together by their index, not by
/// their arrival.
pub proof fn lemma_sent_frame_is_received_in_any_order(
    frame: EncodedFrame,
    sequence: u32,
    timestamp_us: u64,
    mtu: nat,
    order: Seq<int>,
)
    requires
        valid_mtu(mtu),
        chunks_needed(frame.data@.len(), (mtu - 12) as nat) <= u32::MAX,
        each_chunk_once(order, chunks_needed(frame.data@.len(), (mtu - 12) as nat)),
    ensures
        ({
            let datagrams = frame_datagrams(frame, sequence, timestamp_us, mtu);
            let end = received_as(datagrams, order, (datagrams.len() - 1) as nat);
            &&& AssemblerView::begun(datagrams[0]) is Some
            &&& end.complete()
            &&& end.payload() == frame.data@
            &&& end.header.frame_number == frame.frame_number
            &&& end.header.width == frame.width
            &&& end.header.height == frame.height
            &&& end.header.is_full_frame == frame.is_full_frame
        }),
{
    let cap = (mtu - 12) as nat;
    let total = chunks_needed(frame.data@.len(), cap);
    let datagrams = frame_datagrams(frame, sequence, timestamp_us, mtu);
    lemma_frame_header_roundtrip(
        frame_header_for(frame, sequence, timestamp_us, mtu),
        Seq::empty(),
    );
    assert(datagrams[0] + Seq::<u8>::empty() =~= datagrams[0]);
    lemma_receiving_as(frame, sequence, timestamp_us, mtu, order, total);
    let end = received_as(datagrams, order, total);
    assert(order.take(total as int) =~= order);
    // a list of `total` different numbers below `total` holds each of them
    vstd::set_lib::lemma_int_range(0, total as int);
    order.unique_seq_to_set();
    assert(order.to_set().subset_of(vstd::set_lib::set_int_range(0, total as int)));
    vstd::set_lib::lemma_len_subset(order.to_set(), vstd::set_lib::set_int_range(0, total as int));
    vstd::set_lib::lemma_subset_equality(
        order.to_set(),
        vstd::set_lib::set_int_range(0, total as int),
    );
    assert forall|i: int| 0 <= i < total implies end.slots[i] == Some(
        chunk_bytes(frame.data@, cap, i as nat),
    ) by {
        assert(vstd::set_lib::set_int_range(0, total as int).contains(i));
        assert(order.to_set().contains(i));
        assert(order.contains(i));
    }
    lemma_all_filled(end.slots, total);
    lemma_joined_chunks(frame.data@, cap, end.slots, total);
    lemma_chunks_cover(frame.data@.len(), cap);
    assert(frame.data@.subrange(0, frame.data@.len() as int) =~= frame.data@);
}

/// After `n` chunks arrived as `order` says, the slots of these chunks
/// hold them and the others are empty.
proof fn lemma_receiving_as(
    frame: EncodedFrame,
    sequence: u32,
    timestamp_us: u64,
    mtu: nat,
    order: Seq<int>,
    n: nat,
)
    requires
        valid_mtu(mtu),
        chunks_needed(frame.data@.len(), (mtu - 12) as nat) <= u32::MAX,
        each_chunk_once(order, chunks_needed(frame.data@.len(), (mtu - 12) as nat)),
        n <= chunks_needed(frame.data@.len(), (mtu - 12) as nat),
    ensures
        ({
            let datagrams = frame_datagrams(frame, sequence, timestamp_us, mtu);
            let state = received_as(datagrams, order, n);
            &&& state.header == frame_header_for(frame, sequence, timestamp_us, mtu)
            &&& state.slots.len() == chunks_needed(frame.data@.len(), (mtu - 12) as nat)
            &&& forall|i: int|
                0 <= i < state.slots.len() ==> #[trigger] state.slots[i] == (if order.take(
                    n as int,
                ).contains(i) {
                    Some(chunk_bytes(frame.data@, (mtu - 12) as nat, i as nat))
                } else {
                    None
                })
        }),
    decreases n,
{
    let cap = (mtu - 12) as nat;
    let total = chunks_needed(frame.data@.len(), cap);
    let datagrams = frame_datagrams(frame, sequence, timestamp_us, mtu);
    let header = frame_header_for(frame, sequence, timestamp_us, mtu);
    if n == 0 {
        lemma_frame_header_roundtrip(header, Seq::empty());
        assert(datagrams[0] + Seq::<u8>::empty() =~= datagrams[0]);
        assert(order.take(0).len() == 0);
    } else {
        lemma_receiving_as(frame, sequence, timestamp_us, mtu, order, (n - 1) as nat);
        let before = received_as(datagrams, order, (n - 1) as nat);
        let state = received_as(datagrams, order, n);
        let c = order[n - 1];
        let earlier = order.take(n - 1);
        let now = order.take(n as int);
        assert(0 <= c < total);
        assert(!earlier.contains(c)) by {
            if earlier.contains(c) {
                let j = choose|j: int| 0 <= j < earlier.len() && earlier[j] == c;
                assert(order[j] == order[n - 1] && j != n - 1);
            }
        }
        let bytes = chunk_bytes(frame.data@, cap, c as nat);
        let ch = ChunkHeader { sequence, chunk_index: c as u32, chunk_size: bytes.len() as u32 };
        let d = datagrams[1 + c];
        assert(d == ch.wire() + bytes);
        lemma_chunk_header_roundtrip(ch, bytes);
        assert(d.skip(12) =~= bytes);
        assert(before.slots[c] is None);
        assert(before.offer_kind(d) == Offer::Stored);
        assert(state.slots == before.slots.update(c, Some(bytes)));
        assert forall|i: int| 0 <= i < state.slots.len() implies #[trigger] state.slots[i] == (
        if now.contains(i) {
            Some(chunk_bytes(frame.data@, cap, i as nat))
        } else {
            None
        }) by {
            assert(now[n - 1] == c);
            if earlier.contains(i) {
                let j = choose|j: int| 0 <= j < earlier.len() && earlier[j] == i;
                assert(now[j] == i);
            }
            if now.contains(i) && i != c {
                let j = choose|j: int| 0 <= j < now.len() && now[j] == i;
                assert(j < n - 1);
                assert(earlier[j] == i);
            }
        }
    }
}

/// Slots that are all filled are complete.
proof fn lemma_all_filled(slots: Seq<Option<Seq<u8>>>, n: nat)
    requires
        n <= slots.len(),
        forall|i: int| 0 <= i < n ==> slots[i] is Some,
    ensures
        filled(slots, n) == n,
    decreases n,
{
    if n > 0 {
        lemma_all_filled(slots, (n - 1) as nat);
    }
}

/// The chunks of some data, one after the other, are the data up to the
/// end of the last of them.
proof fn lemma_joined_chunks(data: Seq<u8>, cap: nat, slots: Seq<Option<Seq<u8>>>, n: nat)
    requires
        cap > 0,
        n <= slots.len(),
        n <= chunks_needed(data.len(), cap),
        forall|i: int| 0 <= i < n ==> slots[i] == Some(chunk_bytes(data, cap, i as nat)),
    ensures
        joined(slots, n) == data.subrange(
            0,
            if n * cap <= data.len() {
                (n * cap) as int
            } else {
                data.len() as int
            },
        ),
    decreases n,
{
    if n == 0 {
        assert(0 * cap == 0) by (nonlinear_arith);
        assert(joined(slots, 0) =~= data.subrange(0, 0));
    } else {
        lemma_joined_chunks(data, cap, slots, (n - 1) as nat);
        lemma_chunk_inside(data.len(), cap, (n - 1) as nat);
        assert(n * cap == (n - 1) * cap + cap) by (nonlinear_arith);
        let from = ((n - 1) * cap) as int;
        let to = if n * cap <= data.len() {
            (n * cap) as int
        } else {
            data.len() as int
        };
        assert(chunk_bytes(data, cap, (n - 1) as nat) == data.subrange(from, to));
        assert(data.subrange(0, from) + data.subrange(from, to) =~= data.subrange(0, to));
    }
}

} // verus!
