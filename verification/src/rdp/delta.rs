//! Block-level change detection between consecutive frames.
//!
//! The screen is divided into tiles of `block_size` by `block_size`
//! pixels, clipped at the right and bottom edges. A tile has changed when
//! any byte of its pixels differs from the frame before.

use vstd::prelude::*;
use std::time::Instant;
use crate::rdp::types::{lemma_row_bounds, RawScreenFrame};

verus! {

/// A rectangle of pixels.
#[derive(Debug, Clone, Copy, PartialEq, Eq, Structural)]
pub struct Block {
    /// Left edge in pixels.
    pub x: u32,
    /// Top edge in pixels.
    pub y: u32,
    /// Width in pixels.
    pub width: u32,
    /// Height in pixels.
    pub height: u32,
}

/// What changed between a frame and the one before it.
#[derive(Debug, Clone)]
pub struct DeltaFrame {
    /// Number of the frame in the stream; the detector leaves it at zero
    /// for the caller to set.
    pub frame_number: u64,
    /// When the source frame was captured.
    pub timestamp: Instant,
    /// Width of the screen in pixels.
    pub width: u32,
    /// Height of the screen in pixels.
    pub height: u32,
    /// The tiles that changed; for a full frame, the whole screen as one
    /// block.
    pub changed_blocks: Vec<Block>,
    /// Whether the whole frame is to be sent.
    pub full_frame: bool,
}

/// The sum of the areas of the first `n` blocks, in pixels.
pub open spec fn area_of(blocks: Seq<Block>, n: nat) -> nat
    decreases n,
{
    if n == 0 {
        0
    } else {
        area_of(blocks, (n - 1) as nat) + blocks[n - 1].width as nat * blocks[n - 1].height as nat
    }
}

impl DeltaFrame {
    /// The fraction of the screen that changed, as numerator and
    /// denominator: 1/1 for a full frame, 0/1 for a screen without area,
    /// else the summed area of the blocks over the area of the screen,
    /// and no more than 1.
    pub open spec fn spec_change_ratio(&self) -> (nat, nat) {
        let total = self.width as nat * self.height as nat;
        let changed = area_of(self.changed_blocks@, self.changed_blocks@.len());
        if self.full_frame {
            (1, 1)
        } else if total == 0 {
            (0, 1)
        } else if changed > total {
            (total, total)
        } else {
            (changed, total)
        }
    }

    /// The fraction of the screen that changed, as numerator and
    /// denominator; the denominator is never zero.
    pub fn change_ratio_parts(&self) -> (r: (u128, u128))
        ensures
            (r.0 as nat, r.1 as nat) == self.spec_change_ratio(),
            r.0 <= r.1,
            r.1 > 0,
    {
        if self.full_frame {
            return (1, 1);
        }
        let w = self.width as u128;
        let h = self.height as u128;
        assert(w * h <= 0xFFFF_FFFE_0000_0001) by (nonlinear_arith)
            requires
                w <= 0xFFFF_FFFF,
                h <= 0xFFFF_FFFF,
        ;
        let total = w * h;
        if total == 0 {
            return (0, 1);
        }
        let n = self.changed_blocks.len();
        let mut changed: u128 = 0;
        let mut capped = false;
        let mut i: usize = 0;
        while i < n
            invariant
                i <= n,
                n == self.changed_blocks@.len(),
                total == self.width as nat * self.height as nat,
                total <= 0xFFFF_FFFE_0000_0001,
                !capped ==> changed == area_of(self.changed_blocks@, i as nat) && changed <= total,
                capped ==> area_of(self.changed_blocks@, i as nat) > total,
            decreases n - i,
        {
            let b = self.changed_blocks[i];
            let bw = b.width as u128;
            let bh = b.height as u128;
            assert(bw * bh <= 0xFFFF_FFFE_0000_0001) by (nonlinear_arith)
                requires
                    bw <= 0xFFFF_FFFF,
                    bh <= 0xFFFF_FFFF,
            ;
            if !capped {
                changed = changed + bw * bh;
                if changed > total {
                    capped = true;
                }
            }
            i += 1;
        }
        if capped {
            (total, total)
        } else {
            (changed, total)
        }
    }
}

/// The number of tiles of size `bs` that cover `extent` pixels.
pub open spec fn tiles_along(extent: nat, bs: nat) -> nat {
    if bs == 0 {
        0
    } else if extent % bs == 0 {
        extent / bs
    } else {
        extent / bs + 1
    }
}

/// The tile in column `bx` and row `by` of the grid, clipped to the
/// screen.
pub open spec fn tile(w: nat, h: nat, bs: nat, bx: nat, by: nat) -> Block {
    Block {
        x: (bx * bs) as u32,
        y: (by * bs) as u32,
        width: (if w - bx * bs < bs {
            w - bx * bs
        } else {
            bs as int
        }) as u32,
        height: (if h - by * bs < bs {
            h - by * bs
        } else {
            bs as int
        }) as u32,
    }
}

/// The whole screen as one block.
pub open spec fn whole_screen(f: RawScreenFrame) -> Block {
    Block { x: 0, y: 0, width: f.width, height: f.height }
}

/// Whether two frames can be compared tile by tile: the same dimensions,
/// in pixels of the same size. The rows of the two may be padded
/// differently: each frame is read by its own stride.
pub open spec fn comparable(prev: RawScreenFrame, cur: RawScreenFrame) -> bool {
    &&& prev.width == cur.width
    &&& prev.height == cur.height
    &&& prev.format.bpp() == cur.format.bpp()
}

/// Whether the byte at offset `col` of row `row` belongs to a pixel of
/// the block, for pixels of `bpp` bytes.
pub open spec fn covers(b: Block, row: int, col: int, bpp: nat) -> bool {
    b.y <= row < b.y + b.height && b.x * bpp <= col < (b.x + b.width) * bpp
}

/// Whether any byte of the pixels of `b` differs between the two frames.
pub open spec fn region_differs(cur: RawScreenFrame, prev: RawScreenFrame, b: Block) -> bool {
    exists|y: int, col: int|
        b.y <= y < b.y + b.height && b.x * cur.format.bpp() <= col < (b.x + b.width)
            * cur.format.bpp() && #[trigger] cur.byte_at(y, col) != prev.byte_at(y, col)
}

/// The changed tiles among the first `nx` tiles of row `by`, left to
/// right.
pub open spec fn changed_in_row(
    cur: RawScreenFrame,
    prev: RawScreenFrame,
    bs: nat,
    by: nat,
    nx: nat,
) -> Seq<Block>
    decreases nx,
{
    if nx == 0 {
        Seq::empty()
    } else {
        let before = changed_in_row(cur, prev, bs, by, (nx - 1) as nat);
        let t = tile(cur.width as nat, cur.height as nat, bs, (nx - 1) as nat, by);
        if region_differs(cur, prev, t) {
            before.push(t)
        } else {
            before
        }
    }
}

/// The changed tiles of the first `ny` rows of the grid, row by row.
pub open spec fn changed_rows(cur: RawScreenFrame, prev: RawScreenFrame, bs: nat, ny: nat) -> Seq<
    Block,
>
    decreases ny,
{
    if ny == 0 {
        Seq::empty()
    } else {
        changed_rows(cur, prev, bs, (ny - 1) as nat) + changed_in_row(
            cur,
            prev,
            bs,
            (ny - 1) as nat,
            tiles_along(cur.width as nat, bs),
        )
    }
}

/// Every changed tile of the grid, in row-major order.
pub open spec fn changed_tiles(cur: RawScreenFrame, prev: RawScreenFrame, bs: nat) -> Seq<Block> {
    changed_rows(cur, prev, bs, tiles_along(cur.height as nat, bs))
}

/// Whether so many tiles changed that the whole frame is sent instead:
/// more than 80% of all tiles.
pub open spec fn collapses(changed: nat, total: nat) -> bool {
    changed > 0 && 5 * changed > 4 * total
}

/// What detection reports for `cur` after `prev`.
pub open spec fn delta_between(prev: Option<RawScreenFrame>, cur: RawScreenFrame, bs: nat) -> (
    Seq<Block>,
    bool,
) {
    match prev {
        Some(p) if comparable(p, cur) => {
            let changed = changed_tiles(cur, p, bs);
            let total = tiles_along(cur.width as nat, bs) * tiles_along(cur.height as nat, bs);
            if collapses(changed.len(), total) {
                (seq![whole_screen(cur)], true)
            } else {
                (changed, false)
            }
        },
        _ => (seq![whole_screen(cur)], true),
    }
}

/// A tile index below the number of tiles starts inside the extent.
pub proof fn lemma_tile_starts_inside(extent: nat, bs: nat, b: nat)
    requires
        bs > 0,
        b < tiles_along(extent, bs),
    ensures
        b * bs < extent,
        tiles_along(extent, bs) <= extent,
{
    vstd::arithmetic::div_mod::lemma_fundamental_div_mod(extent as int, bs as int);
    let q = extent / bs;
    let r = extent % bs;
    assert(0 <= r < bs);
    assert(b * bs < extent) by (nonlinear_arith)
        requires
            extent == bs * q + r,
            0 <= r < bs,
            0 <= q,
            (r == 0 && b < q) || (r > 0 && b <= q),
    ;
    assert(tiles_along(extent, bs) <= extent) by (nonlinear_arith)
        requires
            extent == bs * q + r,
            0 <= r < bs,
            0 <= q,
            bs > 0,
            tiles_along(extent, bs) == (if r == 0 {
                q
            } else {
                q + 1
            }),
    ;
}

/// Computes the number of tiles that cover `extent` pixels.
fn count_tiles(extent: usize, bs: usize) -> (n: usize)
    requires
        bs > 0,
    ensures
        n == tiles_along(extent as nat, bs as nat),
        n <= extent,
{
    let q = extent / bs;
    proof {
        vstd::arithmetic::div_mod::lemma_fundamental_div_mod(extent as int, bs as int);
        assert(q <= extent && (extent % bs != 0 ==> q < extent)) by (nonlinear_arith)
            requires
                extent == bs * q + (extent % bs) as int,
                0 <= (extent % bs) as int,
                bs > 0,
                q >= 0,
        ;
    }
    if extent % bs != 0 {
        q + 1
    } else {
        q
    }
}

/// Remembers the previous frame and reports what changed since.
pub struct DeltaDetector {
    previous_frame: Option<RawScreenFrame>,
    block_size: usize,
}

impl DeltaDetector {
    #[verifier::type_invariant]
    spec fn usable(&self) -> bool {
        &&& self.block_size > 0
        &&& self.previous_frame matches Some(p) ==> p.well_formed()
    }

    /// The frame that the next detection compares against, if any.
    pub closed spec fn previous(&self) -> Option<RawScreenFrame> {
        self.previous_frame
    }

    /// The size of a tile in pixels.
    pub closed spec fn tile_size(&self) -> nat {
        self.block_size as nat
    }

    /// A detector with the given tile size and no previous frame.
    pub fn new(block_size: usize) -> (r: DeltaDetector)
        requires
            block_size > 0,
        ensures
            r.previous().is_none(),
            r.tile_size() == block_size,
    {
        DeltaDetector { previous_frame: None, block_size }
    }

    /// Forgets the previous frame: the next detection reports a full
    /// frame.
    pub fn reset(&mut self)
        ensures
            final(self).previous().is_none(),
            final(self).tile_size() == old(self).tile_size(),
    {
        proof {
            use_type_invariant(&*self);
        }
        self.previous_frame = None;
    }

    /// Compares `current` with the previous frame, then remembers
    /// `current` as the previous frame.
    ///
    /// Without a previous frame, or with one of other dimensions (or of
    /// another pixel size), the result is a full frame. Otherwise it
    /// lists the tiles that changed in row-major order, or is a full
    /// frame when more than 80% of the tiles changed.
    pub fn detect(&mut self, current: &RawScreenFrame) -> (r: DeltaFrame)
        requires
            current.well_formed(),
        ensures
            final(self).tile_size() == old(self).tile_size(),
            final(self).previous() matches Some(p) && p.same_picture(*current) && p.timestamp
                == current.timestamp,
            r.frame_number == 0,
            r.timestamp == current.timestamp,
            r.width == current.width,
            r.height == current.height,
            (r.changed_blocks@, r.full_frame) == delta_between(
                old(self).previous(),
                *current,
                old(self).tile_size(),
            ),
    {
        proof {
            use_type_invariant(&*self);
        }
        let full = DeltaFrame {
            frame_number: 0,
            timestamp: current.timestamp,
            width: current.width,
            height: current.height,
            changed_blocks: vec![
                Block { x: 0, y: 0, width: current.width, height: current.height },
            ],
            full_frame: true,
        };
        assert(full.changed_blocks@ =~= seq![whole_screen(*current)]);
        let delta = match &self.previous_frame {
            Some(prev) => {
                if prev.width == current.width && prev.height == current.height
                    && prev.format.bytes_per_pixel() == current.format.bytes_per_pixel() {
                    DeltaDetector::detect_blocks(self.block_size, current, prev)
                } else {
                    full
                }
            },
            None => full,
        };
        self.previous_frame = Some(current.clone());
        delta
    }

    /// Compares two frames of the same dimensions tile by tile.
    fn detect_blocks(block_size: usize, current: &RawScreenFrame, previous: &RawScreenFrame) -> (r:
        DeltaFrame)
        requires
            block_size > 0,
            current.well_formed(),
            previous.well_formed(),
            comparable(*previous, *current),
        ensures
            r.frame_number == 0,
            r.timestamp == current.timestamp,
            r.width == current.width,
            r.height == current.height,
            (r.changed_blocks@, r.full_frame) == delta_between(
                Some(*previous),
                *current,
                block_size as nat,
            ),
    {
        let w = current.width as usize;
        let h = current.height as usize;
        let bs = block_size;
        let blocks_x = count_tiles(w, bs);
        let blocks_y = count_tiles(h, bs);
        let mut changed: Vec<Block> = Vec::new();
        let mut by: usize = 0;
        while by < blocks_y
            invariant
                bs > 0,
                bs == block_size,
                w == current.width,
                h == current.height,
                blocks_x == tiles_along(w as nat, bs as nat),
                blocks_y == tiles_along(h as nat, bs as nat),
                by <= blocks_y,
                current.well_formed(),
                previous.well_formed(),
                comparable(*previous, *current),
                changed@ == changed_rows(*current, *previous, bs as nat, by as nat),
            decreases blocks_y - by,
        {
            proof {
                lemma_tile_starts_inside(h as nat, bs as nat, by as nat);
            }
            let start_y = by * bs;
            let end_y = if h - start_y < bs {
                h
            } else {
                start_y + bs
            };
            let ghost row_start = changed@;
            let mut bx: usize = 0;
            while bx < blocks_x
                invariant
                    bs > 0,
                    bs == block_size,
                    w == current.width,
                    h == current.height,
                    blocks_x == tiles_along(w as nat, bs as nat),
                    bx <= blocks_x,
                    start_y == by * bs,
                    start_y < h,
                    end_y == (if h - start_y < bs {
                        h as int
                    } else {
                        start_y + bs
                    }),
                    current.well_formed(),
                    previous.well_formed(),
                    comparable(*previous, *current),
                    changed@ == row_start + changed_in_row(
                        *current,
                        *previous,
                        bs as nat,
                        by as nat,
                        bx as nat,
                    ),
                decreases blocks_x - bx,
            {
                proof {
                    lemma_tile_starts_inside(w as nat, bs as nat, bx as nat);
                }
                let start_x = bx * bs;
                let end_x = if w - start_x < bs {
                    w
                } else {
                    start_x + bs
                };
                let block = Block {
                    x: start_x as u32,
                    y: start_y as u32,
                    width: (end_x - start_x) as u32,
                    height: (end_y - start_y) as u32,
                };
                assert(block == tile(w as nat, h as nat, bs as nat, bx as nat, by as nat));
                let ghost so_far = changed_in_row(
                    *current,
                    *previous,
                    bs as nat,
                    by as nat,
                    bx as nat,
                );
                if DeltaDetector::block_differs(
                    current,
                    previous,
                    start_x,
                    start_y,
                    end_x,
                    end_y,
                ) {
                    changed.push(block);
                    assert(changed@ =~= row_start + so_far.push(block));
                }
                bx += 1;
            }
            assert(changed@ =~= changed_rows(*current, *previous, bs as nat, (by + 1) as nat));
            by += 1;
        }
        let tx = blocks_x as u128;
        let ty = blocks_y as u128;
        assert(tx * ty <= 0xFFFF_FFFE_0000_0001) by (nonlinear_arith)
            requires
                tx <= 0xFFFF_FFFF,
                ty <= 0xFFFF_FFFF,
        ;
        let total = tx * ty;
        let count = changed.len() as u128;
        let full_frame = count > 0 && 5 * count > 4 * total;
        assert(full_frame == collapses(changed@.len(), (blocks_x * blocks_y) as nat));
        let blocks = if full_frame {
            let whole = vec![Block { x: 0, y: 0, width: current.width, height: current.height }];
            assert(whole@ =~= seq![whole_screen(*current)]);
            whole
        } else {
            changed
        };
        DeltaFrame {
            frame_number: 0,
            timestamp: current.timestamp,
            width: current.width,
            height: current.height,
            changed_blocks: blocks,
            full_frame,
        }
    }

    /// Compares the pixels of a rectangle row by row and stops at the
    /// first byte that differs.
    fn block_differs(
        current: &RawScreenFrame,
        previous: &RawScreenFrame,
        start_x: usize,
        start_y: usize,
        end_x: usize,
        end_y: usize,
    ) -> (r: bool)
        requires
            current.well_formed(),
            previous.well_formed(),
            comparable(*previous, *current),
            start_x <= end_x <= current.width,
            start_y <= end_y <= current.height,
        ensures
            r == region_differs(
                *current,
                *previous,
                Block {
                    x: start_x as u32,
                    y: start_y as u32,
                    width: (end_x - start_x) as u32,
                    height: (end_y - start_y) as u32,
                },
            ),
    {
        let bpp = current.format.bytes_per_pixel();
        let stride = current.stride as usize;
        let prev_stride = previous.stride as usize;
        let cur_len = current.data.len();
        let prev_len = previous.data.len();
        let ghost b = Block {
            x: start_x as u32,
            y: start_y as u32,
            width: (end_x - start_x) as u32,
            height: (end_y - start_y) as u32,
        };
        assert(b.x == start_x && b.y == start_y && b.x + b.width == end_x && b.y + b.height
            == end_y);
        assert(start_x * bpp <= end_x * bpp <= current.width * bpp) by (nonlinear_arith)
            requires
                start_x <= end_x <= current.width,
                bpp >= 0,
        ;
        let left = start_x * bpp;
        let right = end_x * bpp;
        assert((b.x + b.width) * current.format.bpp() == right);
        assert(b.x * current.format.bpp() == left);
        let mut y = start_y;
        while y < end_y
            invariant
                start_y <= y <= end_y,
                end_y <= current.height,
                left <= right <= stride,
                right <= prev_stride,
                stride == current.stride,
                prev_stride == previous.stride,
                previous.height == current.height,
                b == (Block {
                    x: start_x as u32,
                    y: start_y as u32,
                    width: (end_x - start_x) as u32,
                    height: (end_y - start_y) as u32,
                }),
                b.y == start_y,
                b.y + b.height == end_y,
                b.x * current.format.bpp() == left,
                (b.x + b.width) * current.format.bpp() == right,
                cur_len == current.data@.len(),
                prev_len == previous.data@.len(),
                cur_len >= current.stride * current.height,
                prev_len >= previous.stride * previous.height,
                forall|yy: int, col: int|
                    start_y <= yy < y && left <= col < right ==> #[trigger] current.byte_at(yy, col)
                        == previous.byte_at(yy, col),
            decreases end_y - y,
        {
            proof {
                lemma_row_bounds(
                    stride as int,
                    current.height as int,
                    y as int,
                    left as int,
                    right as int,
                );
                lemma_row_bounds(
                    prev_stride as int,
                    previous.height as int,
                    y as int,
                    left as int,
                    right as int,
                );
            }
            let row_offset = y * stride;
            let prev_offset = y * prev_stride;
            let mut col = left;
            while col < right
                invariant
                    left <= col <= right,
                    right <= stride,
                    right <= prev_stride,
                    row_offset == y * stride,
                    prev_offset == y * prev_stride,
                    row_offset + right <= cur_len,
                    prev_offset + right <= prev_len,
                    cur_len == current.data@.len(),
                    prev_len == previous.data@.len(),
                    stride == current.stride,
                    prev_stride == previous.stride,
                    start_y <= y < end_y,
                    b == (Block {
                        x: start_x as u32,
                        y: start_y as u32,
                        width: (end_x - start_x) as u32,
                        height: (end_y - start_y) as u32,
                    }),
                    b.y == start_y,
                    b.y + b.height == end_y,
                    b.x * current.format.bpp() == left,
                    (b.x + b.width) * current.format.bpp() == right,
                    forall|c: int|
                        left <= c < col ==> #[trigger] current.byte_at(y as int, c)
                            == previous.byte_at(y as int, c),
                decreases right - col,
            {
                if current.data[row_offset + col] != previous.data[prev_offset + col] {
                    assert(current.byte_at(y as int, col as int) != previous.byte_at(
                        y as int,
                        col as int,
                    ));
                    assert(region_differs(*current, *previous, b));
                    return true;
                }
                col += 1;
            }
            y += 1;
        }
        assert(!region_differs(*current, *previous, b)) by {
            if region_differs(*current, *previous, b) {
                let (yy, col) = choose|yy: int, col: int|
                    b.y <= yy < b.y + b.height && b.x * current.format.bpp() <= col < (b.x
                        + b.width) * current.format.bpp() && #[trigger] current.byte_at(yy, col)
                        != previous.byte_at(yy, col);
                assert(current.byte_at(yy, col) == previous.byte_at(yy, col));
            }
        }
        false
    }
}

/// Whether two frames show the same picture: the same dimensions in
/// pixels of the same size, and the same bytes in every pixel. Bytes
/// that pad the rows do not count.
pub open spec fn same_pixels(prev: RawScreenFrame, cur: RawScreenFrame) -> bool {
    &&& comparable(prev, cur)
    &&& forall|y: int, c: int|
        0 <= y < cur.height && 0 <= c < cur.width * cur.format.bpp() ==> #[trigger] cur.byte_at(
            y,
            c,
        ) == prev.byte_at(y, c)
}

/// A tile of the grid starts at its index times the tile size and lies
/// inside the screen.
proof fn lemma_tile_inside(w: nat, h: nat, bs: nat, i: nat, j: nat)
    requires
        bs > 0,
        w <= u32::MAX,
        h <= u32::MAX,
        i < tiles_along(w, bs),
        j < tiles_along(h, bs),
    ensures
        tile(w, h, bs, i, j).x == i * bs,
        tile(w, h, bs, i, j).y == j * bs,
        tile(w, h, bs, i, j).width > 0,
        tile(w, h, bs, i, j).height > 0,
        tile(w, h, bs, i, j).x + tile(w, h, bs, i, j).width <= w,
        tile(w, h, bs, i, j).y + tile(w, h, bs, i, j).height <= h,
        tile(w, h, bs, i, j).width == (if w - i * bs < bs {
            w - i * bs
        } else {
            bs as int
        }),
        tile(w, h, bs, i, j).height == (if h - j * bs < bs {
            h - j * bs
        } else {
            bs as int
        }),
{
    lemma_tile_starts_inside(w, bs, i);
    lemma_tile_starts_inside(h, bs, j);
}

/// Two frames that show the same picture have no changed tile, so the
/// second of two identical frames yields zero changed blocks and no full
/// frame.
pub proof fn lemma_identical_frames_have_no_changes(
    prev: RawScreenFrame,
    cur: RawScreenFrame,
    bs: nat,
)
    requires
        same_pixels(prev, cur),
    ensures
        delta_between(Some(prev), cur, bs) == (Seq::<Block>::empty(), false),
{
    lemma_no_difference_no_rows(prev, cur, bs, tiles_along(cur.height as nat, bs));
}

proof fn lemma_no_difference_no_rows(prev: RawScreenFrame, cur: RawScreenFrame, bs: nat, ny: nat)
    requires
        same_pixels(prev, cur),
        ny <= tiles_along(cur.height as nat, bs),
    ensures
        changed_rows(cur, prev, bs, ny) == Seq::<Block>::empty(),
    decreases ny,
{
    if ny > 0 {
        lemma_no_difference_no_rows(prev, cur, bs, (ny - 1) as nat);
        lemma_no_difference_no_row(
            prev,
            cur,
            bs,
            (ny - 1) as nat,
            tiles_along(cur.width as nat, bs),
        );
        assert(Seq::<Block>::empty() + Seq::<Block>::empty() =~= Seq::<Block>::empty());
    }
}

proof fn lemma_no_difference_no_row(
    prev: RawScreenFrame,
    cur: RawScreenFrame,
    bs: nat,
    by: nat,
    nx: nat,
)
    requires
        same_pixels(prev, cur),
        by < tiles_along(cur.height as nat, bs),
        nx <= tiles_along(cur.width as nat, bs),
    ensures
        changed_in_row(cur, prev, bs, by, nx) == Seq::<Block>::empty(),
    decreases nx,
{
    if nx > 0 {
        lemma_no_difference_no_row(prev, cur, bs, by, (nx - 1) as nat);
        let w = cur.width as nat;
        let h = cur.height as nat;
        let bpp = cur.format.bpp();
        let t = tile(w, h, bs, (nx - 1) as nat, by);
        lemma_tile_inside(w, h, bs, (nx - 1) as nat, by);
        if region_differs(cur, prev, t) {
            let (y, c) = choose|y: int, c: int|
                t.y <= y < t.y + t.height && t.x * bpp <= c < (t.x + t.width) * bpp
                    && #[trigger] cur.byte_at(y, c) != prev.byte_at(y, c);
            assert(0 <= c && (t.x + t.width) * bpp <= w * bpp) by (nonlinear_arith)
                requires
                    t.x * bpp <= c,
                    t.x >= 0,
                    t.x + t.width <= w,
                    bpp >= 0,
            ;
            assert(cur.byte_at(y, c) == prev.byte_at(y, c));
        }
    }
}

/// The first detection, and the first after a reset, is a full frame of
/// the whole screen.
pub proof fn lemma_first_detect_is_full(cur: RawScreenFrame, bs: nat)
    ensures
        delta_between(None, cur, bs) == (seq![whole_screen(cur)], true),
{
}

/// When more than 80% of the tiles changed, the result is a full frame.
pub proof fn lemma_mostly_changed_is_full(prev: RawScreenFrame, cur: RawScreenFrame, bs: nat)
    requires
        comparable(prev, cur),
        5 * changed_tiles(cur, prev, bs).len() > 4 * (tiles_along(cur.width as nat, bs)
            * tiles_along(cur.height as nat, bs)),
    ensures
        delta_between(Some(prev), cur, bs) == (seq![whole_screen(cur)], true),
{
    let total = tiles_along(cur.width as nat, bs) * tiles_along(cur.height as nat, bs);
    assert(total >= 0);
}

/// An index whose tile starts inside the extent is below the number of
/// tiles.
proof fn lemma_tile_index_inside(extent: nat, bs: nat, b: nat)
    requires
        bs > 0,
        b * bs < extent,
    ensures
        b < tiles_along(extent, bs),
{
    vstd::arithmetic::div_mod::lemma_fundamental_div_mod(extent as int, bs as int);
    let q = extent / bs;
    let r = extent % bs;
    assert(0 <= r < bs);
    assert((r == 0 && b < q) || (r > 0 && b <= q)) by (nonlinear_arith)
        requires
            extent == bs * q + r,
            0 <= r < bs,
            0 <= q,
            b * bs < extent,
            bs > 0,
    ;
}

/// A position lies in the stretch of tile `i` exactly when `i` is the
/// position over the tile size.
proof fn lemma_tile_of_position(pos: nat, extent: nat, bs: nat, i: nat)
    requires
        bs > 0,
        pos < extent,
        i * bs < extent,
    ensures
        (i * bs <= pos < i * bs + (if extent - i * bs < bs {
            extent - i * bs
        } else {
            bs as int
        })) <==> i == pos / bs,
{
    vstd::arithmetic::div_mod::lemma_fundamental_div_mod(pos as int, bs as int);
    let q = pos / bs;
    let r = pos % bs;
    assert(0 <= r < bs);
    assert((i * bs <= pos < i * bs + bs) <==> i == q) by (nonlinear_arith)
        requires
            pos == bs * q + r,
            0 <= r < bs,
            0 <= q,
            0 <= i,
            bs > 0,
    ;
}

/// A byte offset lies in the bytes of the pixels `from..to` exactly when
/// its pixel does.
proof fn lemma_pixel_of_byte(col: nat, bpp: nat, from: nat, to: nat)
    requires
        bpp > 0,
    ensures
        (from * bpp <= col < to * bpp) <==> (from <= col / bpp < to),
{
    vstd::arithmetic::div_mod::lemma_fundamental_div_mod(col as int, bpp as int);
    let q = col / bpp;
    let r = col % bpp;
    assert(0 <= r < bpp);
    assert((from * bpp <= col) <==> (from <= q)) by (nonlinear_arith)
        requires
            col == bpp * q + r,
            0 <= r < bpp,
            0 <= q,
            0 <= from,
            bpp > 0,
    ;
    assert((col < to * bpp) <==> (q < to)) by (nonlinear_arith)
        requires
            col == bpp * q + r,
            0 <= r < bpp,
            0 <= q,
            0 <= to,
            bpp > 0,
    ;
}

/// Two frames of the same dimensions differ in the pixel in column `px`
/// of row `py`, in one or more of its bytes, and in no other pixel.
pub open spec fn single_pixel_difference(
    prev: RawScreenFrame,
    cur: RawScreenFrame,
    px: int,
    py: int,
) -> bool {
    &&& comparable(prev, cur)
    &&& 0 <= px < cur.width
    &&& 0 <= py < cur.height
    &&& exists|c: int|
        px * cur.format.bpp() <= c < (px + 1) * cur.format.bpp() && #[trigger] cur.byte_at(py, c)
            != prev.byte_at(py, c)
    &&& forall|y: int, c: int|
        0 <= y < cur.height && 0 <= c < cur.width * cur.format.bpp() && !(y == py && px
            * cur.format.bpp() <= c < (px + 1) * cur.format.bpp()) ==> #[trigger] cur.byte_at(y, c)
            == prev.byte_at(y, c)
}

/// Where two frames differ in one pixel and in no other, a tile has
/// changed exactly when it holds that pixel.
proof fn lemma_only_its_tile_differs(
    prev: RawScreenFrame,
    cur: RawScreenFrame,
    bs: nat,
    px: int,
    py: int,
    i: nat,
    j: nat,
)
    requires
        bs > 0,
        single_pixel_difference(prev, cur, px, py),
        i < tiles_along(cur.width as nat, bs),
        j < tiles_along(cur.height as nat, bs),
    ensures
        region_differs(cur, prev, tile(cur.width as nat, cur.height as nat, bs, i, j)) <==> (i
            == px / (bs as int) && j == py / (bs as int)),
{
    let w = cur.width as nat;
    let h = cur.height as nat;
    let bpp = cur.format.bpp();
    let t = tile(w, h, bs, i, j);
    lemma_tile_inside(w, h, bs, i, j);
    lemma_tile_of_position(px as nat, w, bs, i);
    lemma_tile_of_position(py as nat, h, bs, j);
    let holds = t.x <= px < t.x + t.width && t.y <= py < t.y + t.height;
    assert(holds <==> (i == px / (bs as int) && j == py / (bs as int)));
    if region_differs(cur, prev, t) {
        let (y, c) = choose|y: int, c: int|
            t.y <= y < t.y + t.height && t.x * bpp <= c < (t.x + t.width) * bpp
                && #[trigger] cur.byte_at(y, c) != prev.byte_at(y, c);
        assert(0 <= c && (t.x + t.width) * bpp <= w * bpp) by (nonlinear_arith)
            requires
                t.x * bpp <= c,
                t.x >= 0,
                t.x + t.width <= w,
                bpp >= 0,
        ;
        assert(y == py && px * bpp <= c < (px + 1) * bpp);
        lemma_pixel_of_byte(c as nat, bpp, px as nat, (px + 1) as nat);
        lemma_pixel_of_byte(c as nat, bpp, t.x as nat, (t.x + t.width) as nat);
        assert(holds);
    }
    if holds {
        let c = choose|c: int|
            px * bpp <= c < (px + 1) * bpp && #[trigger] cur.byte_at(py, c) != prev.byte_at(py, c);
        assert(c >= 0) by (nonlinear_arith)
            requires
                px * bpp <= c,
                px >= 0,
                bpp >= 0,
        ;
        lemma_pixel_of_byte(c as nat, bpp, px as nat, (px + 1) as nat);
        lemma_pixel_of_byte(c as nat, bpp, t.x as nat, (t.x + t.width) as nat);
        assert(t.x * bpp <= c < (t.x + t.width) * bpp);
        assert(region_differs(cur, prev, t));
    }
}

/// The changed tiles of a row of the grid where one pixel differs.
proof fn lemma_single_change_row(
    prev: RawScreenFrame,
    cur: RawScreenFrame,
    bs: nat,
    px: int,
    py: int,
    j: nat,
    nx: nat,
)
    requires
        bs > 0,
        single_pixel_difference(prev, cur, px, py),
        j < tiles_along(cur.height as nat, bs),
        nx <= tiles_along(cur.width as nat, bs),
    ensures
        changed_in_row(cur, prev, bs, j, nx) == (if j == py / (bs as int) && nx > px / (
        bs as int) {
            seq![tile(cur.width as nat, cur.height as nat, bs, (px / (bs as int)) as nat, j)]
        } else {
            Seq::<Block>::empty()
        }),
    decreases nx,
{
    if nx > 0 {
        lemma_single_change_row(prev, cur, bs, px, py, j, (nx - 1) as nat);
        lemma_only_its_tile_differs(prev, cur, bs, px, py, (nx - 1) as nat, j);
        let before = changed_in_row(cur, prev, bs, j, (nx - 1) as nat);
        let t = tile(cur.width as nat, cur.height as nat, bs, (nx - 1) as nat, j);
        if region_differs(cur, prev, t) {
            assert(before.push(t) =~= seq![t]);
        }
    }
}

/// The changed tiles of the first rows of the grid where one pixel
/// differs.
proof fn lemma_single_change_rows(
    prev: RawScreenFrame,
    cur: RawScreenFrame,
    bs: nat,
    px: int,
    py: int,
    ny: nat,
)
    requires
        bs > 0,
        single_pixel_difference(prev, cur, px, py),
        ny <= tiles_along(cur.height as nat, bs),
        px / (bs as int) < tiles_along(cur.width as nat, bs),
    ensures
        changed_rows(cur, prev, bs, ny) == (if ny > py / (bs as int) {
            seq![
                tile(
                    cur.width as nat,
                    cur.height as nat,
                    bs,
                    (px / (bs as int)) as nat,
                    (py / (bs as int)) as nat,
                ),
            ]
        } else {
            Seq::<Block>::empty()
        }),
    decreases ny,
{
    if ny > 0 {
        lemma_single_change_rows(prev, cur, bs, px, py, (ny - 1) as nat);
        lemma_single_change_row(
            prev,
            cur,
            bs,
            px,
            py,
            (ny - 1) as nat,
            tiles_along(cur.width as nat, bs),
        );
        let a = changed_rows(cur, prev, bs, (ny - 1) as nat);
        let b = changed_in_row(
            cur,
            prev,
            bs,
            (ny - 1) as nat,
            tiles_along(cur.width as nat, bs),
        );
        assert(a + b =~= changed_rows(cur, prev, bs, ny));
        assert(Seq::<Block>::empty() + b =~= b);
        assert(a + Seq::<Block>::empty() =~= a);
    }
}

/// The tile of the grid that holds the pixel in column `px` of row `py`.
pub open spec fn tile_of_pixel(cur: RawScreenFrame, bs: nat, px: int, py: int) -> Block {
    tile(
        cur.width as nat,
        cur.height as nat,
        bs,
        (px / (bs as int)) as nat,
        (py / (bs as int)) as nat,
    )
}

/// Changing one pixel yields exactly one block, and the block covers the
/// pixel: where two frames of the same dimensions differ in one pixel
/// (in one or more of its bytes) and in no other, the changed tiles are
/// the one tile that holds the pixel. The delta lists that tile; only
/// where the grid is a single tile, which is then more than 80% of the
/// tiles, it is a full frame of the whole screen.
pub proof fn lemma_single_change_is_one_block(
    prev: RawScreenFrame,
    cur: RawScreenFrame,
    bs: nat,
    px: int,
    py: int,
)
    requires
        bs > 0,
        single_pixel_difference(prev, cur, px, py),
    ensures
        changed_tiles(cur, prev, bs) == seq![tile_of_pixel(cur, bs, px, py)],
        tile_of_pixel(cur, bs, px, py).x == (px / (bs as int)) * bs,
        tile_of_pixel(cur, bs, px, py).y == (py / (bs as int)) * bs,
        tile_of_pixel(cur, bs, px, py).x <= px < tile_of_pixel(cur, bs, px, py).x + tile_of_pixel(
            cur,
            bs,
            px,
            py,
        ).width,
        tile_of_pixel(cur, bs, px, py).y <= py < tile_of_pixel(cur, bs, px, py).y + tile_of_pixel(
            cur,
            bs,
            px,
            py,
        ).height,
        delta_between(Some(prev), cur, bs) == (if tiles_along(cur.width as nat, bs) * tiles_along(
            cur.height as nat,
            bs,
        ) == 1 {
            (seq![whole_screen(cur)], true)
        } else {
            (seq![tile_of_pixel(cur, bs, px, py)], false)
        }),
{
    let w = cur.width as nat;
    let h = cur.height as nat;
    vstd::arithmetic::div_mod::lemma_fundamental_div_mod(px, bs as int);
    vstd::arithmetic::div_mod::lemma_fundamental_div_mod(py, bs as int);
    let bx = (px / (bs as int)) as nat;
    let by = (py / (bs as int)) as nat;
    assert(px / (bs as int) >= 0 && py / (bs as int) >= 0 && bx * bs <= px && by * bs <= py)
        by (nonlinear_arith)
        requires
            px == bs * (px / (bs as int)) + px % (bs as int),
            py == bs * (py / (bs as int)) + py % (bs as int),
            0 <= px % (bs as int) < bs,
            0 <= py % (bs as int) < bs,
            px >= 0,
            py >= 0,
            bx == px / (bs as int),
            by == py / (bs as int),
    ;
    lemma_tile_index_inside(w, bs, bx);
    lemma_tile_index_inside(h, bs, by);
    lemma_single_change_rows(prev, cur, bs, px, py, tiles_along(h, bs));
    lemma_tile_inside(w, h, bs, bx, by);
    lemma_tile_of_position(px as nat, w, bs, bx);
    lemma_tile_of_position(py as nat, h, bs, by);
    let t = tile_of_pixel(cur, bs, px, py);
    assert(changed_tiles(cur, prev, bs) == seq![t]);
    let tx = tiles_along(w, bs);
    let ty = tiles_along(h, bs);
    assert(tx * ty >= 1) by (nonlinear_arith)
        requires
            tx >= 1,
            ty >= 1,
    ;
}

} // verus!
