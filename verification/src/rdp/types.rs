//! Raw frames as they pass between the stages of the pipeline.

use vstd::prelude::*;
use vstd::slice::slice_subrange;
use std::time::Instant;

verus! {

/// The layout of the pixels of a raw frame.
#[derive(Debug, Clone, Copy, PartialEq, Eq, Hash, Structural)]
pub enum PixelFormat {
    /// Four bytes per pixel: blue, green, red, alpha.
    Bgra8,
    /// Four bytes per pixel: red, green, blue, alpha.
    Rgba8,
    /// Three bytes per pixel: red, green, blue.
    Rgb8,
}

impl PixelFormat {
    /// The number of bytes of one pixel.
    pub open spec fn bpp(self) -> nat {
        match self {
            PixelFormat::Bgra8 => 4,
            PixelFormat::Rgba8 => 4,
            PixelFormat::Rgb8 => 3,
        }
    }

    /// The number of bytes of one pixel.
    pub fn bytes_per_pixel(self) -> (r: usize)
        ensures
            r == self.bpp(),
    {
        match self {
            PixelFormat::Bgra8 => 4,
            PixelFormat::Rgba8 => 4,
            PixelFormat::Rgb8 => 3,
        }
    }
}

/// A raw, uncompressed capture of the screen.
///
/// `data` holds `height` rows of `stride` bytes. A row starts with
/// `width` pixels; `stride` may be larger than they need, for rows that
/// the capture layer pads.
#[derive(Debug)]
pub struct RawScreenFrame {
    /// Width in pixels.
    pub width: u32,
    /// Height in pixels.
    pub height: u32,
    /// Bytes from the start of one row to the start of the next.
    pub stride: u32,
    /// Layout of a pixel.
    pub format: PixelFormat,
    /// The rows, `stride * height` bytes.
    pub data: Vec<u8>,
    /// When the frame was captured.
    pub timestamp: Instant,
}

impl Clone for RawScreenFrame {
    fn clone(&self) -> (r: RawScreenFrame)
        ensures
            r.same_picture(*self),
            r.timestamp == self.timestamp,
    {
        RawScreenFrame {
            width: self.width,
            height: self.height,
            stride: self.stride,
            format: self.format,
            data: self.data.clone(),
            timestamp: self.timestamp,
        }
    }
}

impl RawScreenFrame {
    /// A row is wide enough for its pixels and the data holds every row.
    pub open spec fn well_formed(self) -> bool {
        &&& self.stride >= self.width * self.format.bpp()
        &&& self.data@.len() >= self.stride * self.height
    }

    /// The same dimensions, layout and bytes.
    pub open spec fn same_picture(self, other: RawScreenFrame) -> bool {
        &&& self.width == other.width
        &&& self.height == other.height
        &&& self.stride == other.stride
        &&& self.format == other.format
        &&& self.data@ == other.data@
    }

    /// The byte at offset `col` of row `y`.
    pub open spec fn byte_at(self, y: int, col: int) -> u8 {
        self.data@[y * self.stride + col]
    }

    /// Whether a row is wide enough for its pixels and the data holds
    /// every row.
    pub fn is_well_formed(&self) -> (r: bool)
        ensures
            r == self.well_formed(),
    {
        let bpp = self.format.bytes_per_pixel() as u64;
        let w = self.width as u64;
        let s = self.stride as u64;
        let h = self.height as u64;
        assert(w * bpp <= 0x3_FFFF_FFFC) by (nonlinear_arith)
            requires
                w <= 0xFFFF_FFFF,
                bpp <= 4,
        ;
        assert(s * h <= 0xFFFF_FFFE_0000_0001) by (nonlinear_arith)
            requires
                s <= 0xFFFF_FFFF,
                h <= 0xFFFF_FFFF,
        ;
        let row = w * bpp;
        let all = s * h;
        s >= row && self.data.len() as u64 >= all
    }

    /// The number of bytes that the rows occupy: `stride * height`.
    pub fn byte_len(&self) -> (r: usize)
        requires
            self.well_formed(),
        ensures
            r == self.stride * self.height,
    {
        let held = self.data.len();
        let s = self.stride as usize;
        let h = self.height as usize;
        assert(s * h == self.stride * self.height);
        s * h
    }

    /// The bytes of row `y`, padding included.
    pub fn row(&self, y: u32) -> (r: &[u8])
        requires
            self.well_formed(),
            y < self.height,
        ensures
            r@ == self.data@.subrange(y * self.stride, y * self.stride + self.stride),
    {
        proof {
            lemma_row_bounds(self.stride as int, self.height as int, y as int, 0, self.stride as int);
        }
        let held = self.data.len();
        let row = y as usize;
        let s = self.stride as usize;
        assert(row * s == y * self.stride);
        assert(self.stride * self.height == self.stride as int * self.height as int);
        let start = row * s;
        let end = start + s;
        slice_subrange(self.data.as_slice(), start, end)
    }

    /// The bytes of the pixel at `(x, y)`.
    pub fn pixel(&self, x: u32, y: u32) -> (r: &[u8])
        requires
            self.well_formed(),
            x < self.width,
            y < self.height,
        ensures
            r@ == self.data@.subrange(
                y * self.stride + x * self.format.bpp(),
                y * self.stride + x * self.format.bpp() + self.format.bpp(),
            ),
    {
        let bpp = self.format.bytes_per_pixel();
        proof {
            assert(x * bpp + bpp <= self.width * bpp) by (nonlinear_arith)
                requires
                    x < self.width,
                    bpp >= 0,
            ;
            lemma_row_bounds(
                self.stride as int,
                self.height as int,
                y as int,
                (x * bpp) as int,
                (x * bpp + bpp) as int,
            );
        }
        let held = self.data.len();
        let row = y as usize;
        let col = x as usize;
        let s = self.stride as usize;
        assert(row * s == y * self.stride);
        assert(col * bpp == x * bpp);
        assert(self.stride * self.height == self.stride as int * self.height as int);
        let offset = row * s + col * bpp;
        slice_subrange(self.data.as_slice(), offset, offset + bpp)
    }
}

/// A stretch of bytes inside row `y` lies inside the rows of the frame.
pub proof fn lemma_row_bounds(stride: int, height: int, y: int, from: int, to: int)
    requires
        0 <= stride,
        0 <= y < height || (y == 0 && height == 0 && to == 0),
        0 <= from <= to <= stride,
    ensures
        0 <= y * stride,
        y * stride + from <= y * stride + to,
        y * stride + to <= stride * height,
        0 <= stride * height,
{
    assert(0 <= y * stride) by (nonlinear_arith)
        requires
            0 <= y,
            0 <= stride,
    ;
    assert(0 <= stride * height) by (nonlinear_arith)
        requires
            0 <= height,
            0 <= stride,
    ;
    if y < height {
        assert(y * stride + stride <= stride * height) by (nonlinear_arith)
            requires
                0 <= y < height,
                0 <= stride,
        ;
    }
}

} // verus!
