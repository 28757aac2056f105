//! The frame decoder: decompresses frames and applies them to a running
//! framebuffer of `width * height * bpp` bytes, rows packed tightly.

use vstd::prelude::*;
use vstd::bytes::{spec_u32_from_le_bytes, u32_from_le_bytes};
use vstd::slice::slice_subrange;
use vstd::string::StringExecFns;
use crate::error::{io_error_text, TixError};
use crate::rdp::delta::Block;
use crate::rdp::encoder::{zstd_decoded, EncodedFrame};
use crate::rdp::types::lemma_row_bounds;

verus! {

/// `zstd::decode_all` on a byte slice: decompresses zstd frames. Whether
/// it succeeds and what it gives depend on the bytes alone.
#[verifier::external_body]
pub(crate) fn zstd_decode(data: &[u8]) -> (r: Result<Vec<u8>, std::io::Error>)
    ensures
        match r {
            Ok(raw) => zstd_decoded(data@) == Some(raw@),
            Err(_) => zstd_decoded(data@).is_none(),
        },
{
    zstd::decode_all(data)
}

/// A decompressed frame.
#[derive(Debug, Clone)]
pub struct DecodedFrame {
    /// Width of the screen in pixels.
    pub width: u32,
    /// Height of the screen in pixels.
    pub height: u32,
    /// Whether `data` is a full frame or a delta payload.
    pub is_full_frame: bool,
    /// The raw payload.
    pub data: Vec<u8>,
    /// Number of blocks, for information.
    pub block_count: u32,
}

/// One block taken out of a delta payload.
#[derive(Debug, Clone)]
pub struct DecodedBlock {
    pub x: u32,
    pub y: u32,
    pub width: u32,
    pub height: u32,
    /// The pixels: `width * height * bpp` bytes, rows packed tightly.
    pub data: Vec<u8>,
}

impl View for DecodedBlock {
    type V = (Block, Seq<u8>);

    open spec fn view(&self) -> (Block, Seq<u8>) {
        (Block { x: self.x, y: self.y, width: self.width, height: self.height }, self.data@)
    }
}

/// The little-endian `u32` at offset `at`.
pub open spec fn u32_at(data: Seq<u8>, at: int) -> u32 {
    spec_u32_from_le_bytes(data.subrange(at, at + 4))
}

/// The block header at offset `at`.
pub open spec fn header_at(data: Seq<u8>, at: int) -> Block {
    Block {
        x: u32_at(data, at),
        y: u32_at(data, at + 4),
        width: u32_at(data, at + 8),
        height: u32_at(data, at + 12),
    }
}

/// The number of bytes of the pixels of a block.
pub open spec fn pixel_bytes(b: Block, bpp: nat) -> nat {
    b.width as nat * b.height as nat * bpp
}

/// The next `count` blocks of a delta payload from offset `at` on, or
/// `None` when a header or the pixels of a block are cut short.
pub open spec fn blocks_from(data: Seq<u8>, bpp: nat, at: nat, count: nat) -> Option<
    Seq<(Block, Seq<u8>)>,
>
    decreases count,
{
    if count == 0 {
        Some(Seq::empty())
    } else if at + 16 > data.len() {
        None
    } else {
        let b = header_at(data, at as int);
        let n = pixel_bytes(b, bpp);
        if at + 16 + n > data.len() {
            None
        } else {
            match blocks_from(data, bpp, at + 16 + n, (count - 1) as nat) {
                Some(rest) => Some(
                    seq![(b, data.subrange((at + 16) as int, (at + 16 + n) as int))] + rest,
                ),
                None => None,
            }
        }
    }
}

/// The blocks of a delta payload, or `None` when it is cut short.
pub open spec fn payload_blocks(data: Seq<u8>, bpp: nat) -> Option<Seq<(Block, Seq<u8>)>> {
    if data.len() < 4 {
        None
    } else {
        blocks_from(data, bpp, 4, u32_at(data, 0) as nat)
    }
}

/// A framebuffer with `bytes` written at offset `at`.
pub open spec fn blit(fb: Seq<u8>, at: int, bytes: Seq<u8>) -> Seq<u8> {
    fb.subrange(0, at) + bytes + fb.subrange(at + bytes.len(), fb.len() as int)
}

/// The framebuffer after the first `rows` rows of block `b`, whose pixels
/// start at offset `at` of `data`, were written; `false` when the data
/// ends inside one of these rows, with the rows before it written.
pub open spec fn blit_rows(
    fb: Seq<u8>,
    data: Seq<u8>,
    at: nat,
    b: Block,
    rows: nat,
    width: nat,
    bpp: nat,
) -> (Seq<u8>, bool)
    decreases rows,
{
    if rows == 0 {
        (fb, true)
    } else {
        let (f, ok) = blit_rows(fb, data, at, b, (rows - 1) as nat, width, bpp);
        let row_bytes = b.width * bpp;
        if !ok || at + rows * row_bytes > data.len() {
            (f, false)
        } else {
            (
                blit(
                    f,
                    (b.y + rows - 1) * (width * bpp) + b.x * bpp,
                    data.subrange(
                        (at + (rows - 1) * row_bytes) as int,
                        (at + rows * row_bytes) as int,
                    ),
                ),
                true,
            )
        }
    }
}

/// The framebuffer after the next `count` blocks of a delta payload were
/// written, from offset `at` on; `false` when a header or a row is cut
/// short, with everything before it written.
pub open spec fn apply_blocks(
    fb: Seq<u8>,
    data: Seq<u8>,
    at: nat,
    count: nat,
    width: nat,
    bpp: nat,
) -> (Seq<u8>, bool)
    decreases count,
{
    if count == 0 {
        (fb, true)
    } else if at + 16 > data.len() {
        (fb, false)
    } else {
        let b = header_at(data, at as int);
        let (f, ok) = blit_rows(fb, data, at + 16, b, b.height as nat, width, bpp);
        if !ok {
            (f, false)
        } else {
            apply_blocks(
                f,
                data,
                at + 16 + pixel_bytes(b, bpp),
                (count - 1) as nat,
                width,
                bpp,
            )
        }
    }
}

/// Whether every block that applying reads from offset `at` on lies
/// inside a screen of `width` by `height` pixels.
pub open spec fn blocks_fit(
    data: Seq<u8>,
    at: nat,
    count: nat,
    width: nat,
    height: nat,
    bpp: nat,
) -> bool
    decreases count,
{
    if count == 0 || at + 16 > data.len() {
        true
    } else {
        let b = header_at(data, at as int);
        &&& b.x + b.width <= width
        &&& b.y + b.height <= height
        &&& at + 16 + pixel_bytes(b, bpp) <= data.len() ==> blocks_fit(
            data,
            at + 16 + pixel_bytes(b, bpp),
            (count - 1) as nat,
            width,
            height,
            bpp,
        )
    }
}

/// Whether every block of a delta payload lies inside the screen.
pub open spec fn payload_fits(data: Seq<u8>, width: nat, height: nat, bpp: nat) -> bool {
    data.len() >= 4 ==> blocks_fit(data, 4, u32_at(data, 0) as nat, width, height, bpp)
}

/// A framebuffer of `n` zero bytes.
pub open spec fn blank(n: nat) -> Seq<u8> {
    Seq::new(n, |i: int| 0u8)
}

/// Reads the block header at offset `at`.
fn read_header(data: &[u8], at: usize) -> (b: Block)
    requires
        at + 16 <= data@.len(),
    ensures
        b == header_at(data@, at as int),
{
    let held = data.len();
    let x = u32_from_le_bytes(slice_subrange(data, at, at + 4));
    let y = u32_from_le_bytes(slice_subrange(data, at + 4, at + 8));
    let width = u32_from_le_bytes(slice_subrange(data, at + 8, at + 12));
    let height = u32_from_le_bytes(slice_subrange(data, at + 12, at + 16));
    Block { x, y, width, height }
}

/// The number of bytes of the pixels of a block, computed without
/// overflow.
fn pixel_byte_count(b: Block, bpp: usize) -> (n: u128)
    ensures
        n == pixel_bytes(b, bpp as nat),
{
    let w = b.width as u128;
    let h = b.height as u128;
    let p = bpp as u128;
    assert(w * h <= 0xFFFF_FFFE_0000_0001) by (nonlinear_arith)
        requires
            w <= 0xFFFF_FFFF,
            h <= 0xFFFF_FFFF,
    ;
    let area = w * h;
    assert(area * p <= 0xFFFF_FFFE_0000_0001 * 0xFFFF_FFFF_FFFF_FFFF) by (nonlinear_arith)
        requires
            area <= 0xFFFF_FFFE_0000_0001,
            p <= 0xFFFF_FFFF_FFFF_FFFF,
    ;
    area * p
}

/// Writes `n` bytes of `src`, from offset `from` on, into `fb` at `at`.
fn copy_into(fb: &mut Vec<u8>, at: usize, src: &[u8], from: usize, n: usize)
    requires
        at + n <= old(fb)@.len(),
        from + n <= src@.len(),
    ensures
        final(fb)@ == blit(old(fb)@, at as int, src@.subrange(from as int, from + n)),
        final(fb)@.len() == old(fb)@.len(),
{
    let room = fb.len();
    let held = src.len();
    let mut k: usize = 0;
    while k < n
        invariant
            k <= n,
            room == fb@.len(),
            held == src@.len(),
            at + n <= fb@.len(),
            from + n <= src@.len(),
            fb@.len() == old(fb)@.len(),
            forall|j: int| 0 <= j < at ==> fb@[j] == old(fb)@[j],
            forall|j: int| at <= j < at + k ==> fb@[j] == src@[from + j - at],
            forall|j: int| at + k <= j < fb@.len() ==> fb@[j] == old(fb)@[j],
        decreases n - k,
    {
        fb.set(at + k, src[from + k]);
        k += 1;
    }
    assert(fb@ =~= blit(old(fb)@, at as int, src@.subrange(from as int, from + n)));
}

/// Writes the rows of block `b`, whose pixels start at offset `at` of
/// `data`, into the framebuffer of a screen of `width` by `height`
/// pixels. Returns the offset after the pixels, or `None` when the data
/// ends inside a row, with the rows before it written.
fn blit_block(
    fb: &mut Vec<u8>,
    data: &[u8],
    at: usize,
    b: Block,
    width: u32,
    height: u32,
    bpp: usize,
) -> (next: Option<usize>)
    requires
        at <= data@.len(),
        old(fb)@.len() == width as nat * height as nat * bpp as nat,
        b.x + b.width <= width,
        b.y + b.height <= height,
    ensures
        final(fb)@.len() == old(fb)@.len(),
        (final(fb)@, next is Some) == blit_rows(
            old(fb)@,
            data@,
            at as nat,
            b,
            b.height as nat,
            width as nat,
            bpp as nat,
        ),
        next matches Some(n) ==> n == at + pixel_bytes(b, bpp as nat) && n <= data@.len(),
{
    if b.height == 0 {
        assert(pixel_bytes(b, bpp as nat) == 0) by (nonlinear_arith)
            requires
                b.height == 0,
        ;
        return Some(at);
    }
    let fb_len = fb.len();
    let w = width as usize;
    let h = height as usize;
    assert(width as nat * height as nat * bpp as nat == (w * bpp) * h) by (nonlinear_arith)
        requires
            w == width,
            h == height,
    ;
    assert(0 <= w * bpp <= (w * bpp) * h) by (nonlinear_arith)
        requires
            h >= 1,
            w >= 0,
            bpp >= 0,
    ;
    assert(0 <= b.x * bpp && 0 <= b.width * bpp && b.x * bpp + b.width * bpp <= w * bpp)
        by (nonlinear_arith)
        requires
            b.x + b.width <= w,
            b.x >= 0,
            b.width >= 0,
            bpp >= 0,
    ;
    let row_stride = w * bpp;
    let row_bytes = b.width as usize * bpp;
    let dst_x = b.x as usize * bpp;
    let rows = b.height as usize;
    let mut row: usize = 0;
    let mut src = at;
    while row < rows
        invariant
            row <= rows,
            rows == b.height,
            at <= src <= data@.len(),
            src == at + row * row_bytes,
            row_bytes == b.width * bpp,
            dst_x == b.x * bpp,
            row_stride == w * bpp,
            w == width,
            h == height,
            dst_x + row_bytes <= row_stride,
            b.y + b.height <= h,
            fb_len == fb@.len(),
            fb_len == old(fb)@.len(),
            fb_len == row_stride * h,
            (fb@, true) == blit_rows(
                old(fb)@,
                data@,
                at as nat,
                b,
                row as nat,
                width as nat,
                bpp as nat,
            ),
        decreases rows - row,
    {
        assert((row + 1) * row_bytes == row * row_bytes + row_bytes) by (nonlinear_arith);
        if data.len() - src < row_bytes {
            proof {
                lemma_blit_rows_stays_failed(
                    old(fb)@,
                    data@,
                    at as nat,
                    b,
                    (row + 1) as nat,
                    b.height as nat,
                    width as nat,
                    bpp as nat,
                );
            }
            return None;
        }
        proof {
            lemma_row_bounds(
                row_stride as int,
                h as int,
                (b.y + row) as int,
                dst_x as int,
                (dst_x + row_bytes) as int,
            );
        }
        let dst = (b.y as usize + row) * row_stride + dst_x;
        copy_into(fb, dst, data, src, row_bytes);
        src = src + row_bytes;
        row += 1;
    }
    assert(rows * row_bytes == pixel_bytes(b, bpp as nat)) by (nonlinear_arith)
        requires
            row_bytes == b.width * bpp,
            rows == b.height,
    ;
    Some(src)
}

/// Applies frames to a framebuffer that it keeps.
pub struct FrameDecoder {
    frame_buffer: Vec<u8>,
    buf_width: u32,
    buf_height: u32,
}

impl Default for FrameDecoder {
    fn default() -> (r: FrameDecoder)
        ensures
            r.buffer() == Seq::<u8>::empty(),
            r.dimensions() == (0u32, 0u32),
    {
        FrameDecoder::new()
    }
}

impl FrameDecoder {
    /// The bytes of the framebuffer.
    pub closed spec fn buffer(&self) -> Seq<u8> {
        self.frame_buffer@
    }

    /// The width and height that the framebuffer was made for.
    pub closed spec fn dimensions(&self) -> (u32, u32) {
        (self.buf_width, self.buf_height)
    }

    /// The framebuffer that a frame of `width` by `height` is applied to:
    /// the one that is there, or a blank one when the dimensions differ.
    pub open spec fn base_buffer(&self, width: u32, height: u32, bpp: nat) -> Seq<u8> {
        if self.dimensions() == (width, height) {
            self.buffer()
        } else {
            blank(width as nat * height as nat * bpp)
        }
    }

    /// Whether `apply` can take the frame: the framebuffer for it has
    /// `width * height * bpp` bytes, which fit the machine, and the blocks
    /// of a delta frame lie inside the screen.
    pub open spec fn accepts(&self, frame: DecodedFrame, bpp: nat) -> bool {
        &&& frame.width as nat * frame.height as nat * bpp <= usize::MAX
        &&& self.base_buffer(frame.width, frame.height, bpp).len() == frame.width as nat
            * frame.height as nat * bpp
        &&& !frame.is_full_frame ==> payload_fits(
            frame.data@,
            frame.width as nat,
            frame.height as nat,
            bpp,
        )
    }

    /// What `apply` leaves in the framebuffer, and whether it succeeds.
    pub open spec fn applied(&self, frame: DecodedFrame, bpp: nat) -> (Seq<u8>, bool) {
        let base = self.base_buffer(frame.width, frame.height, bpp);
        let size = frame.width as nat * frame.height as nat * bpp;
        if frame.is_full_frame {
            if frame.data@.len() < size {
                (base, false)
            } else {
                (frame.data@.subrange(0, size as int), true)
            }
        } else if frame.data@.len() < 4 {
            (base, false)
        } else {
            apply_blocks(
                base,
                frame.data@,
                4,
                u32_at(frame.data@, 0) as nat,
                frame.width as nat,
                bpp,
            )
        }
    }

    /// A decoder with an empty framebuffer.
    pub fn new() -> (r: FrameDecoder)
        ensures
            r.buffer() == Seq::<u8>::empty(),
            r.dimensions() == (0u32, 0u32),
    {
        FrameDecoder { frame_buffer: Vec::new(), buf_width: 0, buf_height: 0 }
    }

    /// Decompresses an encoded frame. The result carries the fields of
    /// the encoded frame and the raw payload that its data holds; when
    /// the data are no zstd frames, the error is `Other`.
    pub fn decode(&mut self, encoded: &EncodedFrame) -> (r: Result<DecodedFrame, TixError>)
        ensures
            final(self).buffer() == old(self).buffer(),
            final(self).dimensions() == old(self).dimensions(),
            match r {
                Ok(f) => {
                    &&& zstd_decoded(encoded.data@) == Some(f.data@)
                    &&& f.width == encoded.width
                    &&& f.height == encoded.height
                    &&& f.is_full_frame == encoded.is_full_frame
                    &&& f.block_count == encoded.block_count
                },
                Err(e) => zstd_decoded(encoded.data@).is_none() && e is Other,
            },
    {
        let outcome = zstd_decode(encoded.data.as_slice());
        FrameDecoder::decoded(encoded, outcome)
    }

    /// Makes the decoded frame from what decompression returned.
    pub fn decoded(encoded: &EncodedFrame, outcome: Result<Vec<u8>, std::io::Error>) -> (r: Result<
        DecodedFrame,
        TixError,
    >)
        ensures
            match (outcome, r) {
                (Ok(raw), Ok(f)) => {
                    &&& f.data@ == raw@
                    &&& f.width == encoded.width
                    &&& f.height == encoded.height
                    &&& f.is_full_frame == encoded.is_full_frame
                    &&& f.block_count == encoded.block_count
                },
                (Err(_), Err(e)) => e is Other,
                _ => false,
            },
    {
        match outcome {
            Ok(raw) => Ok(
                DecodedFrame {
                    width: encoded.width,
                    height: encoded.height,
                    is_full_frame: encoded.is_full_frame,
                    data: raw,
                    block_count: encoded.block_count,
                },
            ),
            Err(e) => {
                let mut msg = String::from_str("zstd decode failed: ");
                let t = io_error_text(&e);
                msg.append(t.as_str());
                Err(TixError::Other(msg))
            },
        }
    }

    /// Whether `apply` can take the frame.
    #[verifier::loop_isolation(false)]
    pub fn can_apply(&self, frame: &DecodedFrame, bpp: usize) -> (r: bool)
        ensures
            r == self.accepts(*frame, bpp as nat),
    {
        let w = frame.width as u128;
        let h = frame.height as u128;
        assert(w * h <= 0xFFFF_FFFE_0000_0001) by (nonlinear_arith)
            requires
                w <= 0xFFFF_FFFF,
                h <= 0xFFFF_FFFF,
        ;
        let area = w * h;
        let p = bpp as u128;
        assert(area * p <= 0xFFFF_FFFE_0000_0001 * 0xFFFF_FFFF_FFFF_FFFF) by (nonlinear_arith)
            requires
                area <= 0xFFFF_FFFE_0000_0001,
                p <= 0xFFFF_FFFF_FFFF_FFFF,
        ;
        let size = area * p;
        if size > usize::MAX as u128 {
            return false;
        }
        if frame.width == self.buf_width && frame.height == self.buf_height {
            if self.frame_buffer.len() as u128 != size {
                return false;
            }
        } else {
            assert(blank(size as nat).len() == size);
        }
        if frame.is_full_frame {
            return true;
        }
        let data = frame.data.as_slice();
        if data.len() < 4 {
            return true;
        }
        let count = u32_from_le_bytes(slice_subrange(data, 0, 4));
        let mut offset: usize = 4;
        let mut left = count;
        while left > 0
            invariant
                4 <= offset <= data@.len(),
                data@ == frame.data@,
                blocks_fit(
                    data@,
                    4,
                    count as nat,
                    frame.width as nat,
                    frame.height as nat,
                    bpp as nat,
                ) == blocks_fit(
                    data@,
                    offset as nat,
                    left as nat,
                    frame.width as nat,
                    frame.height as nat,
                    bpp as nat,
                ),
            decreases left,
        {
            if data.len() - offset < 16 {
                return true;
            }
            let b = read_header(data, offset);
            if b.x as u64 + b.width as u64 > frame.width as u64 || b.y as u64 + b.height as u64
                > frame.height as u64 {
                return false;
            }
            let n = pixel_byte_count(b, bpp);
            if n > (data.len() - offset - 16) as u128 {
                return true;
            }
            offset = offset + 16 + n as usize;
            left -= 1;
        }
        true
    }

    /// Applies a decoded frame to the framebuffer and returns the
    /// framebuffer.
    ///
    /// When the dimensions of the frame differ from those of the
    /// framebuffer, it is first made anew, all zero. A full frame then
    /// replaces it; a delta frame writes its blocks into it. A payload
    /// that is cut short is an `Other` error, with the blocks and rows
    /// before the cut written.
    pub fn apply(&mut self, frame: &DecodedFrame, bpp: usize) -> (r: Result<&[u8], TixError>)
        requires
            old(self).accepts(*frame, bpp as nat),
        ensures
            final(self).dimensions() == (frame.width, frame.height),
            final(self).buffer() == old(self).applied(*frame, bpp as nat).0,
            final(self).buffer().len() == frame.width as nat * frame.height as nat * bpp as nat,
            match r {
                Ok(buf) => old(self).applied(*frame, bpp as nat).1 && buf@ == final(self).buffer(),
                Err(e) => !old(self).applied(*frame, bpp as nat).1 && e is Other,
            },
    {
        let w = frame.width as usize;
        let h = frame.height as usize;
        assert(w * h <= w * h * bpp || bpp == 0) by (nonlinear_arith)
            requires
                w >= 0,
                h >= 0,
                bpp >= 0,
        ;
        assert(w * h * bpp <= usize::MAX);
        if bpp == 0 {
            assert(w * h * bpp == 0) by (nonlinear_arith)
                requires
                    bpp == 0,
            ;
        }
        let fb_size = if bpp == 0 {
            0
        } else {
            w * h * bpp
        };
        if frame.width != self.buf_width || frame.height != self.buf_height {
            self.frame_buffer = vec![0u8; fb_size];
            self.buf_width = frame.width;
            self.buf_height = frame.height;
            assert(self.frame_buffer@ =~= blank(fb_size as nat));
        }
        let outcome = if frame.is_full_frame {
            self.apply_full_frame(frame.data.as_slice(), bpp)
        } else {
            self.apply_delta_frame(frame.data.as_slice(), bpp)
        };
        match outcome {
            Ok(()) => Ok(self.frame_buffer.as_slice()),
            Err(e) => Err(e),
        }
    }

    /// The framebuffer; empty before the first frame.
    pub fn frame_buffer(&self) -> (r: &[u8])
        ensures
            r@ == self.buffer(),
    {
        self.frame_buffer.as_slice()
    }

    /// Copies a full frame over the framebuffer.
    fn apply_full_frame(&mut self, data: &[u8], bpp: usize) -> (r: Result<(), TixError>)
        requires
            old(self).frame_buffer@.len() == old(self).buf_width as nat * old(self).buf_height as nat
                * bpp as nat,
        ensures
            final(self).buf_width == old(self).buf_width,
            final(self).buf_height == old(self).buf_height,
            match r {
                Ok(_) => data@.len() >= old(self).frame_buffer@.len() && final(self).frame_buffer@
                    == data@.subrange(0, old(self).frame_buffer@.len() as int),
                Err(e) => data@.len() < old(self).frame_buffer@.len() && e is Other
                    && final(self).frame_buffer@ == old(self).frame_buffer@,
            },
    {
        let expected = self.frame_buffer.len();
        if data.len() < expected {
            return Err(TixError::Other(String::from_str("full frame too short")));
        }
        copy_into(&mut self.frame_buffer, 0, data, 0, expected);
        assert(self.frame_buffer@ =~= data@.subrange(0, expected as int));
        Ok(())
    }

    /// Writes the blocks of a delta payload into the framebuffer.
    #[verifier::loop_isolation(false)]
    fn apply_delta_frame(&mut self, data: &[u8], bpp: usize) -> (r: Result<(), TixError>)
        requires
            old(self).frame_buffer@.len() == old(self).buf_width as nat * old(self).buf_height as nat
                * bpp as nat,
            payload_fits(
                data@,
                old(self).buf_width as nat,
                old(self).buf_height as nat,
                bpp as nat,
            ),
        ensures
            final(self).buf_width == old(self).buf_width,
            final(self).buf_height == old(self).buf_height,
            final(self).frame_buffer@.len() == old(self).frame_buffer@.len(),
            data@.len() < 4 ==> r is Err && final(self).frame_buffer@ == old(self).frame_buffer@,
            data@.len() >= 4 ==> (final(self).frame_buffer@, r is Ok) == apply_blocks(
                old(self).frame_buffer@,
                data@,
                4,
                u32_at(data@, 0) as nat,
                old(self).buf_width as nat,
                bpp as nat,
            ),
            r matches Err(e) ==> e is Other,
    {
        if data.len() < 4 {
            return Err(TixError::Other(String::from_str("delta frame too short for block count")));
        }
        let count = u32_from_le_bytes(slice_subrange(data, 0, 4));
        let width = self.buf_width;
        let height = self.buf_height;
        let ghost goal = apply_blocks(
            self.frame_buffer@,
            data@,
            4,
            count as nat,
            width as nat,
            bpp as nat,
        );
        let mut offset: usize = 4;
        let mut left = count;
        while left > 0
            invariant
                4 <= offset <= data@.len(),
                self.buf_width == width,
                self.buf_height == height,
                self.frame_buffer@.len() == old(self).frame_buffer@.len(),
                blocks_fit(
                    data@,
                    offset as nat,
                    left as nat,
                    width as nat,
                    height as nat,
                    bpp as nat,
                ),
                goal == apply_blocks(
                    self.frame_buffer@,
                    data@,
                    offset as nat,
                    left as nat,
                    width as nat,
                    bpp as nat,
                ),
            decreases left,
        {
            if data.len() - offset < 16 {
                return Err(
                    TixError::Other(String::from_str("delta frame truncated (block header)")),
                );
            }
            let b = read_header(data, offset);
            match blit_block(&mut self.frame_buffer, data, offset + 16, b, width, height, bpp) {
                Some(next) => {
                    offset = next;
                },
                None => {
                    return Err(
                        TixError::Other(String::from_str("delta frame truncated (block data)")),
                    );
                },
            }
            left -= 1;
        }
        Ok(())
    }

    /// Takes the blocks out of a delta payload, for renderers that draw
    /// blocks one by one. A payload that is cut short is an `Other`
    /// error.
    #[verifier::loop_isolation(false)]
    pub fn extract_blocks(data: &[u8], bpp: usize) -> (r: Result<Vec<DecodedBlock>, TixError>)
        ensures
            match r {
                Ok(blocks) => payload_blocks(data@, bpp as nat) == Some(
                    Seq::new(blocks@.len(), |i: int| blocks@[i]@),
                ),
                Err(e) => payload_blocks(data@, bpp as nat).is_none() && e is Other,
            },
    {
        if data.len() < 4 {
            return Err(TixError::Other(String::from_str("delta too short")));
        }
        let count = u32_from_le_bytes(slice_subrange(data, 0, 4));
        let mut blocks: Vec<DecodedBlock> = Vec::new();
        let mut offset: usize = 4;
        let mut left = count;
        let ghost goal = blocks_from(data@, bpp as nat, 4, count as nat);
        while left > 0
            invariant
                4 <= offset <= data@.len(),
                goal == (match blocks_from(data@, bpp as nat, offset as nat, left as nat) {
                    Some(rest) => Some(Seq::new(blocks@.len(), |i: int| blocks@[i]@) + rest),
                    None => None,
                }),
            decreases left,
        {
            if data.len() - offset < 16 {
                return Err(TixError::Other(String::from_str("truncated block header")));
            }
            let b = read_header(data, offset);
            let n = pixel_byte_count(b, bpp);
            if n > (data.len() - offset - 16) as u128 {
                return Err(TixError::Other(String::from_str("truncated block data")));
            }
            let from = offset + 16;
            let to = from + n as usize;
            let pixels = vstd::slice::slice_to_vec(slice_subrange(data, from, to));
            let ghost before = Seq::new(blocks@.len(), |i: int| blocks@[i]@);
            blocks.push(
                DecodedBlock { x: b.x, y: b.y, width: b.width, height: b.height, data: pixels },
            );
            proof {
                let now = Seq::new(blocks@.len(), |i: int| blocks@[i]@);
                assert(now =~= before.push((b, data@.subrange(from as int, to as int))));
                match blocks_from(data@, bpp as nat, to as nat, (left - 1) as nat) {
                    Some(rest) => {
                        assert(before + (seq![(b, data@.subrange(from as int, to as int))] + rest)
                            =~= now + rest);
                    },
                    None => {},
                }
            }
            offset = to;
            left -= 1;
        }
        assert(Seq::new(blocks@.len(), |i: int| blocks@[i]@) + Seq::<(Block, Seq<u8>)>::empty()
            =~= Seq::new(blocks@.len(), |i: int| blocks@[i]@));
        Ok(blocks)
    }
}

/// Once the data has ended inside a row, writing more rows fails too and
/// changes nothing more.
proof fn lemma_blit_rows_stays_failed(
    fb: Seq<u8>,
    data: Seq<u8>,
    at: nat,
    b: Block,
    cut: nat,
    rows: nat,
    width: nat,
    bpp: nat,
)
    requires
        1 <= cut <= rows,
        blit_rows(fb, data, at, b, (cut - 1) as nat, width, bpp).1,
        at + cut * (b.width * bpp) > data.len(),
    ensures
        blit_rows(fb, data, at, b, rows, width, bpp) == (
            blit_rows(fb, data, at, b, (cut - 1) as nat, width, bpp).0,
            false,
        ),
    decreases rows,
{
    if rows > cut {
        lemma_blit_rows_stays_failed(fb, data, at, b, cut, (rows - 1) as nat, width, bpp);
    }
}

} // verus!
