//! The adaptive frame encoder.
//!
//! A frame is first laid out as raw bytes, then compressed with zstd:
//!
//! - a full frame is every row of the source, packed tightly (the padding
//!   of the source's stride is left out);
//! - a delta frame is a little-endian `u32` count of blocks, then for
//!   each block a 16-byte header `(x, y, width, height)`, little-endian,
//!   and its rows, packed tightly.
//!
//! The compression level follows the measured bandwidth.

use vstd::prelude::*;
use vstd::bytes::{spec_u32_to_le_bytes, u32_to_le_bytes};
use vstd::slice::slice_subrange;
use vstd::string::StringExecFns;
use std::time::Instant;
use crate::error::{io_error_text, TixError};
use crate::rdp::delta::{whole_screen, Block, DeltaFrame};
use crate::rdp::types::{lemma_row_bounds, RawScreenFrame};

verus! {

/// What `zstd::decode_all` returns for `data`: the bytes that the zstd
/// frames in `data` hold, or `None` where it fails.
pub uninterp spec fn zstd_decoded(data: Seq<u8>) -> Option<Seq<u8>>;

/// What `zstd::encode_all` returns for `raw` at `level`: the zstd frame
/// that holds `raw`, compressed at that level, or `None` where it fails.
pub uninterp spec fn zstd_encoded(raw: Seq<u8>, level: int) -> Option<Seq<u8>>;

/// `zstd::encode_all` on a byte slice: compresses the bytes at the given
/// level into the zstd frame format. Whether it succeeds and what comes
/// out depend on the bytes and the level alone, and the format is
/// lossless: what comes out decodes to what went in.
#[verifier::external_body]
pub(crate) fn zstd_encode(raw: &[u8], level: i32) -> (r: Result<Vec<u8>, std::io::Error>)
    ensures
        match r {
            Ok(out) => {
                &&& zstd_encoded(raw@, level as int) == Some(out@)
                &&& zstd_decoded(out@) == Some(raw@)
            },
            Err(_) => zstd_encoded(raw@, level as int).is_none(),
        },
{
    zstd::encode_all(raw, level)
}

/// A compressed frame, ready for the network.
#[derive(Debug)]
pub struct EncodedFrame {
    /// Number of the frame in the stream.
    pub frame_number: u64,
    /// When the frame was captured.
    pub timestamp: Instant,
    /// Width of the screen in pixels.
    pub width: u32,
    /// Height of the screen in pixels.
    pub height: u32,
    /// The compressed payload.
    pub data: Vec<u8>,
    /// Whether the payload is a full frame or changed blocks.
    pub is_full_frame: bool,
    /// Number of blocks, for information.
    pub block_count: u32,
}

impl Clone for EncodedFrame {
    fn clone(&self) -> (r: EncodedFrame)
        ensures
            r.frame_number == self.frame_number,
            r.timestamp == self.timestamp,
            r.width == self.width,
            r.height == self.height,
            r.data@ == self.data@,
            r.is_full_frame == self.is_full_frame,
            r.block_count == self.block_count,
    {
        EncodedFrame {
            frame_number: self.frame_number,
            timestamp: self.timestamp,
            width: self.width,
            height: self.height,
            data: self.data.clone(),
            is_full_frame: self.is_full_frame,
            block_count: self.block_count,
        }
    }
}

/// Whether a block lies inside the frame.
pub open spec fn block_inside(b: Block, src: RawScreenFrame) -> bool {
    b.x + b.width <= src.width && b.y + b.height <= src.height
}

/// Whether every block lies inside the frame.
pub open spec fn blocks_inside(blocks: Seq<Block>, src: RawScreenFrame) -> bool {
    forall|i: int| 0 <= i < blocks.len() ==> block_inside(#[trigger] blocks[i], src)
}

/// The bytes of the pixels of `b` in row `row` of the block.
pub open spec fn block_row(src: RawScreenFrame, b: Block, row: int) -> Seq<u8> {
    src.data@.subrange(
        (b.y + row) * src.stride + b.x * src.format.bpp(),
        (b.y + row) * src.stride + b.x * src.format.bpp() + b.width * src.format.bpp(),
    )
}

/// The first `rows` rows of the pixels of `b`, packed tightly.
pub open spec fn block_rows(src: RawScreenFrame, b: Block, rows: nat) -> Seq<u8>
    decreases rows,
{
    if rows == 0 {
        Seq::empty()
    } else {
        block_rows(src, b, (rows - 1) as nat) + block_row(src, b, rows - 1)
    }
}

/// The pixels of `b`, row by row, packed tightly.
pub open spec fn block_pixels(src: RawScreenFrame, b: Block) -> Seq<u8> {
    block_rows(src, b, b.height as nat)
}

/// The 16-byte header of a block in a delta payload.
pub open spec fn block_header(b: Block) -> Seq<u8> {
    spec_u32_to_le_bytes(b.x) + spec_u32_to_le_bytes(b.y) + spec_u32_to_le_bytes(b.width)
        + spec_u32_to_le_bytes(b.height)
}

/// The headers and pixels of the first `n` blocks, one after the other.
pub open spec fn blocks_payload(src: RawScreenFrame, blocks: Seq<Block>, n: nat) -> Seq<u8>
    decreases n,
{
    if n == 0 {
        Seq::empty()
    } else {
        blocks_payload(src, blocks, (n - 1) as nat) + block_header(blocks[n - 1]) + block_pixels(
            src,
            blocks[n - 1],
        )
    }
}

/// The raw payload of a full frame.
pub open spec fn full_payload(src: RawScreenFrame) -> Seq<u8> {
    block_pixels(src, whole_screen(src))
}

/// The raw payload of a delta frame.
pub open spec fn delta_payload(src: RawScreenFrame, blocks: Seq<Block>) -> Seq<u8> {
    spec_u32_to_le_bytes(blocks.len() as u32) + blocks_payload(src, blocks, blocks.len())
}

/// The raw payload of a frame before compression.
pub open spec fn raw_payload(delta: DeltaFrame, src: RawScreenFrame) -> Seq<u8> {
    if delta.full_frame {
        full_payload(src)
    } else {
        delta_payload(src, delta.changed_blocks@)
    }
}

/// Whether the encoder can lay out `delta` from `src`: the frame is
/// well-formed, the number of blocks fits the wire's count, and the
/// blocks of a delta frame lie inside the frame.
pub open spec fn encodable(delta: DeltaFrame, src: RawScreenFrame) -> bool {
    &&& src.well_formed()
    &&& delta.changed_blocks@.len() <= u32::MAX
    &&& !delta.full_frame ==> blocks_inside(delta.changed_blocks@, src)
}

/// The knobs of the encoder as mathematical values.
pub struct EncoderView {
    pub compression_level: int,
    pub quality: nat,
    pub target_bandwidth: nat,
    pub measured_bandwidth: nat,
    pub frame_count: nat,
}

impl EncoderView {
    /// The knobs after a measurement: over the target, quality drops by 5
    /// (not below 0) and the level rises by 1 (not above 9); under 80% of
    /// the target, quality rises by 5 (not above 100) and the level drops
    /// by 1 (not below 1); in between, both stay.
    pub open spec fn adjusted(self, measured: nat) -> EncoderView {
        if measured > self.target_bandwidth {
            EncoderView {
                measured_bandwidth: measured,
                quality: if self.quality >= 5 {
                    (self.quality - 5) as nat
                } else {
                    0
                },
                compression_level: if self.compression_level + 1 <= 9 {
                    self.compression_level + 1
                } else {
                    9
                },
                ..self
            }
        } else if measured < self.target_bandwidth * 8 / 10 {
            EncoderView {
                measured_bandwidth: measured,
                quality: if self.quality + 5 <= 100 {
                    self.quality + 5
                } else {
                    100
                },
                compression_level: if self.compression_level - 1 >= 1 {
                    self.compression_level - 1
                } else {
                    1
                },
                ..self
            }
        } else {
            EncoderView { measured_bandwidth: measured, ..self }
        }
    }
}

/// Encodes frames with zstd and adapts the compression level to the
/// bandwidth.
pub struct AdaptiveEncoder {
    compression_level: i32,
    quality: u8,
    target_bandwidth: u64,
    measured_bandwidth: u64,
    frame_count: u64,
}

impl View for AdaptiveEncoder {
    type V = EncoderView;

    closed spec fn view(&self) -> EncoderView {
        EncoderView {
            compression_level: self.compression_level as int,
            quality: self.quality as nat,
            target_bandwidth: self.target_bandwidth as nat,
            measured_bandwidth: self.measured_bandwidth as nat,
            frame_count: self.frame_count as nat,
        }
    }
}

impl AdaptiveEncoder {
    #[verifier::type_invariant]
    spec fn knobs_in_range(&self) -> bool {
        &&& 1 <= self.compression_level <= 9
        &&& self.quality <= 100
    }

    /// An encoder for the given target in bytes per second: level 1,
    /// quality 90.
    pub fn new(target_bandwidth: u64) -> (r: AdaptiveEncoder)
        ensures
            r@ == (EncoderView {
                compression_level: 1,
                quality: 90,
                target_bandwidth: target_bandwidth as nat,
                measured_bandwidth: target_bandwidth as nat,
                frame_count: 0,
            }),
    {
        AdaptiveEncoder {
            compression_level: 1,
            quality: 90,
            target_bandwidth,
            measured_bandwidth: target_bandwidth,
            frame_count: 0,
        }
    }

    /// Whether the encoder can lay out `delta` from `source`.
    pub fn can_encode(delta: &DeltaFrame, source: &RawScreenFrame) -> (r: bool)
        ensures
            r == encodable(*delta, *source),
    {
        if !source.is_well_formed() {
            return false;
        }
        if delta.changed_blocks.len() > u32::MAX as usize {
            return false;
        }
        if delta.full_frame {
            return true;
        }
        let mut i: usize = 0;
        while i < delta.changed_blocks.len()
            invariant
                i <= delta.changed_blocks@.len(),
                source.well_formed(),
                !delta.full_frame,
                delta.changed_blocks@.len() <= u32::MAX,
                forall|j: int|
                    0 <= j < i ==> block_inside(#[trigger] delta.changed_blocks@[j], *source),
            decreases delta.changed_blocks@.len() - i,
        {
            let b = delta.changed_blocks[i];
            let fits = b.x as u64 + b.width as u64 <= source.width as u64 && b.y as u64
                + b.height as u64 <= source.height as u64;
            if !fits {
                assert(!block_inside(delta.changed_blocks@[i as int], *source));
                return false;
            }
            i += 1;
        }
        true
    }

    /// Lays out the frame, compresses it and counts it.
    ///
    /// On success the data of the result is the raw payload of the frame,
    /// compressed at the encoder's level, and every other field is taken
    /// from `delta`. Compression is zstd's: where it fails, the error is
    /// `Other` and the encoder is as it was.
    pub fn encode(&mut self, delta: &DeltaFrame, source: &RawScreenFrame) -> (r: Result<
        EncodedFrame,
        TixError,
    >)
        requires
            encodable(*delta, *source),
            old(self)@.frame_count < u64::MAX,
        ensures
            match r {
                Ok(f) => {
                    &&& zstd_encoded(
                        raw_payload(*delta, *source),
                        old(self)@.compression_level,
                    ) == Some(f.data@)
                    &&& zstd_decoded(f.data@) == Some(raw_payload(*delta, *source))
                    &&& f.frame_number == delta.frame_number
                    &&& f.timestamp == delta.timestamp
                    &&& f.width == delta.width
                    &&& f.height == delta.height
                    &&& f.is_full_frame == delta.full_frame
                    &&& f.block_count == delta.changed_blocks@.len()
                    &&& final(self)@ == (EncoderView {
                        frame_count: old(self)@.frame_count + 1,
                        ..old(self)@
                    })
                },
                Err(e) => {
                    &&& zstd_encoded(
                        raw_payload(*delta, *source),
                        old(self)@.compression_level,
                    ).is_none()
                    &&& e is Other
                    &&& final(self)@ == old(self)@
                },
            },
    {
        proof {
            use_type_invariant(&*self);
        }
        let raw = if delta.full_frame {
            AdaptiveEncoder::encode_full_frame(source)
        } else {
            AdaptiveEncoder::encode_delta_blocks(delta.changed_blocks.as_slice(), source)
        };
        let compressed = zstd_encode(raw.as_slice(), self.compression_level);
        self.finish(delta, compressed)
    }

    /// Makes the encoded frame from what compression returned.
    pub fn finish(&mut self, delta: &DeltaFrame, compressed: Result<Vec<u8>, std::io::Error>) -> (r:
        Result<EncodedFrame, TixError>)
        requires
            delta.changed_blocks@.len() <= u32::MAX,
            old(self)@.frame_count < u64::MAX,
        ensures
            match (compressed, r) {
                (Ok(data), Ok(f)) => {
                    &&& f.data@ == data@
                    &&& f.frame_number == delta.frame_number
                    &&& f.timestamp == delta.timestamp
                    &&& f.width == delta.width
                    &&& f.height == delta.height
                    &&& f.is_full_frame == delta.full_frame
                    &&& f.block_count == delta.changed_blocks@.len()
                    &&& final(self)@ == (EncoderView {
                        frame_count: old(self)@.frame_count + 1,
                        ..old(self)@
                    })
                },
                (Err(_), Err(e)) => e is Other && final(self)@ == old(self)@,
                _ => false,
            },
    {
        proof {
            use_type_invariant(&*self);
        }
        match compressed {
            Ok(data) => {
                self.frame_count += 1;
                Ok(
                    EncodedFrame {
                        frame_number: delta.frame_number,
                        timestamp: delta.timestamp,
                        width: delta.width,
                        height: delta.height,
                        data,
                        is_full_frame: delta.full_frame,
                        block_count: delta.changed_blocks.len() as u32,
                    },
                )
            },
            Err(e) => {
                let mut msg = String::from_str("zstd encode failed: ");
                let t = io_error_text(&e);
                msg.append(t.as_str());
                Err(TixError::Other(msg))
            },
        }
    }

    /// Adapts quality and compression level to the measured bandwidth.
    pub fn adjust_quality(&mut self, measured_bandwidth: u64)
        ensures
            final(self)@ == old(self)@.adjusted(measured_bandwidth as nat),
    {
        proof {
            use_type_invariant(&*self);
        }
        self.measured_bandwidth = measured_bandwidth;
        let threshold = (self.target_bandwidth as u128 * 8 / 10) as u64;
        if measured_bandwidth > self.target_bandwidth {
            self.quality = if self.quality >= 5 {
                self.quality - 5
            } else {
                0
            };
            self.compression_level = if self.compression_level + 1 <= 9 {
                self.compression_level + 1
            } else {
                9
            };
        } else if measured_bandwidth < threshold {
            self.quality = if self.quality + 5 <= 100 {
                self.quality + 5
            } else {
                100
            };
            self.compression_level = if self.compression_level - 1 >= 1 {
                self.compression_level - 1
            } else {
                1
            };
        }
    }

    /// The quality slider, 0 to 100.
    pub fn quality(&self) -> (r: u8)
        ensures
            r == self@.quality,
            r <= 100,
    {
        proof {
            use_type_invariant(self);
        }
        self.quality
    }

    /// The zstd level in use, 1 to 9.
    pub fn compression_level(&self) -> (r: i32)
        ensures
            r == self@.compression_level,
            1 <= r <= 9,
    {
        proof {
            use_type_invariant(self);
        }
        self.compression_level
    }

    /// The number of frames encoded so far.
    pub fn frame_count(&self) -> (r: u64)
        ensures
            r == self@.frame_count,
    {
        self.frame_count
    }

    /// Appends the rows of the pixels of `b` to `out`, packed tightly.
    fn push_block_rows(out: &mut Vec<u8>, source: &RawScreenFrame, b: Block)
        requires
            source.well_formed(),
            block_inside(b, *source),
        ensures
            final(out)@ == old(out)@ + block_pixels(*source, b),
    {
        let bpp = source.format.bytes_per_pixel();
        let held = source.data.len();
        let stride = source.stride as usize;
        assert(b.x * bpp + b.width * bpp <= source.width * bpp) by (nonlinear_arith)
            requires
                b.x + b.width <= source.width,
                bpp >= 0,
        ;
        assert(0 <= b.x * bpp && 0 <= b.width * bpp) by (nonlinear_arith)
            requires
                b.x >= 0,
                b.width >= 0,
                bpp >= 0,
        ;
        let left = b.x as usize * bpp;
        let row_bytes = b.width as usize * bpp;
        let mut row: u32 = 0;
        while row < b.height
            invariant
                row <= b.height,
                source.well_formed(),
                block_inside(b, *source),
                bpp == source.format.bpp(),
                held == source.data@.len(),
                stride == source.stride,
                left == b.x * bpp,
                row_bytes == b.width * bpp,
                left + row_bytes <= stride,
                out@ == old(out)@ + block_rows(*source, b, row as nat),
            decreases b.height - row,
        {
            let y = (b.y + row) as usize;
            proof {
                lemma_row_bounds(
                    stride as int,
                    source.height as int,
                    y as int,
                    left as int,
                    (left + row_bytes) as int,
                );
            }
            let offset = y * stride + left;
            let ghost before = out@;
            out.extend_from_slice(slice_subrange(source.data.as_slice(), offset, offset + row_bytes));
            assert(out@ =~= old(out)@ + block_rows(*source, b, (row + 1) as nat)) by {
                assert(source.data@.subrange(offset as int, offset + row_bytes) == block_row(
                    *source,
                    b,
                    row as int,
                ));
            }
            row += 1;
        }
    }

    /// The raw payload of a full frame: every row of the source, packed
    /// tightly.
    fn encode_full_frame(source: &RawScreenFrame) -> (out: Vec<u8>)
        requires
            source.well_formed(),
        ensures
            out@ == full_payload(*source),
    {
        let mut out: Vec<u8> = Vec::new();
        let whole = Block { x: 0, y: 0, width: source.width, height: source.height };
        AdaptiveEncoder::push_block_rows(&mut out, source, whole);
        assert(out@ =~= full_payload(*source));
        out
    }

    /// The raw payload of a delta frame: the count of blocks, then each
    /// block's header and pixels.
    fn encode_delta_blocks(blocks: &[Block], source: &RawScreenFrame) -> (out: Vec<u8>)
        requires
            source.well_formed(),
            blocks@.len() <= u32::MAX,
            blocks_inside(blocks@, *source),
        ensures
            out@ == delta_payload(*source, blocks@),
    {
        let mut out: Vec<u8> = Vec::new();
        let count = u32_to_le_bytes(blocks.len() as u32);
        out.extend_from_slice(count.as_slice());
        let mut i: usize = 0;
        while i < blocks.len()
            invariant
                i <= blocks@.len(),
                source.well_formed(),
                blocks_inside(blocks@, *source),
                out@ == spec_u32_to_le_bytes(blocks@.len() as u32) + blocks_payload(
                    *source,
                    blocks@,
                    i as nat,
                ),
            decreases blocks@.len() - i,
        {
            let block = blocks[i];
            let ghost before = out@;
            let x = u32_to_le_bytes(block.x);
            out.extend_from_slice(x.as_slice());
            let y = u32_to_le_bytes(block.y);
            out.extend_from_slice(y.as_slice());
            let w = u32_to_le_bytes(block.width);
            out.extend_from_slice(w.as_slice());
            let h = u32_to_le_bytes(block.height);
            out.extend_from_slice(h.as_slice());
            assert(out@ =~= before + block_header(block));
            AdaptiveEncoder::push_block_rows(&mut out, source, block);
            assert(out@ =~= spec_u32_to_le_bytes(blocks@.len() as u32) + blocks_payload(
                *source,
                blocks@,
                (i + 1) as nat,
            ));
            i += 1;
        }
        out
    }
}

} // verus!
