//! What a frame looks like after the way through the encoder and the
//! decoder: every dirty block of the framebuffer equals the source at
//! that block, and what no block covers is as it was.

use vstd::prelude::*;
use vstd::bytes::{lemma_auto_spec_u32_to_from_le_bytes, spec_u32_to_le_bytes};
use crate::rdp::decoder::{
    apply_blocks, blit, blit_rows, blocks_fit, header_at, payload_fits, pixel_bytes, u32_at,
};
use crate::rdp::delta::{covers, whole_screen, Block};
use crate::rdp::encoder::{
    block_header, block_inside, block_pixels, block_row, block_rows, blocks_inside, blocks_payload,
    delta_payload, full_payload,
};
use crate::rdp::types::{lemma_row_bounds, RawScreenFrame};

verus! {

/// Whether the byte belongs to a pixel of one of the blocks `from..to`.
pub open spec fn covered(blocks: Seq<Block>, from: int, to: int, row: int, col: int, bpp: nat) -> bool {
    exists|i: int| from <= i < to && covers(#[trigger] blocks[i], row, col, bpp)
}

/// The byte of a tightly packed framebuffer at offset `col` of row
/// `row`.
pub open spec fn fb_byte(fb: Seq<u8>, width: nat, bpp: nat, row: int, col: int) -> u8 {
    fb[row * (width * bpp) + col]
}

/// Writing bytes into a framebuffer changes the bytes at their place and
/// no others.
proof fn lemma_blit(fb: Seq<u8>, at: int, bytes: Seq<u8>)
    requires
        0 <= at,
        at + bytes.len() <= fb.len(),
    ensures
        blit(fb, at, bytes).len() == fb.len(),
        forall|p: int|
            0 <= p < fb.len() ==> #[trigger] blit(fb, at, bytes)[p] == (if at <= p < at
                + bytes.len() {
                bytes[p - at]
            } else {
                fb[p]
            }),
{
}

/// The rows of a block that lies inside a well-formed frame have the
/// width of the block each.
proof fn lemma_block_rows_len(src: RawScreenFrame, b: Block, rows: nat)
    requires
        src.well_formed(),
        block_inside(b, src),
        rows <= b.height,
    ensures
        block_rows(src, b, rows).len() == rows * (b.width * src.format.bpp()),
        forall|r: int|
            0 <= r < rows ==> (#[trigger] block_row(src, b, r)).len() == b.width
                * src.format.bpp(),
    decreases rows,
{
    let bpp = src.format.bpp();
    let rb = b.width * bpp;
    assert(0 <= b.x * bpp && 0 <= rb && b.x * bpp + rb <= src.width * bpp) by (nonlinear_arith)
        requires
            b.x + b.width <= src.width,
            b.x >= 0,
            b.width >= 0,
            rb == b.width * bpp,
    ;
    if rows == 0 {
        assert(0 * rb == 0) by (nonlinear_arith);
    } else {
        lemma_block_rows_len(src, b, (rows - 1) as nat);
        lemma_row_bounds(
            src.stride as int,
            src.height as int,
            b.y + rows - 1,
            (b.x * bpp) as int,
            (b.x * bpp + rb) as int,
        );
        assert(rows * rb == (rows - 1) * rb + rb) by (nonlinear_arith);
        assert forall|r: int| 0 <= r < rows implies (#[trigger] block_row(src, b, r)).len()
            == rb by {
            lemma_row_bounds(
                src.stride as int,
                src.height as int,
                b.y + r,
                (b.x * bpp) as int,
                (b.x * bpp + rb) as int,
            );
        }
    }
}

/// Row `r` of the packed pixels of a block is row `r` of the block.
proof fn lemma_block_rows_row(src: RawScreenFrame, b: Block, rows: nat, r: int)
    requires
        src.well_formed(),
        block_inside(b, src),
        rows <= b.height,
        0 <= r < rows,
    ensures
        block_rows(src, b, rows).subrange(
            r * (b.width * src.format.bpp()),
            (r + 1) * (b.width * src.format.bpp()),
        ) == block_row(src, b, r),
    decreases rows,
{
    let rb = b.width * src.format.bpp();
    lemma_block_rows_len(src, b, rows);
    lemma_block_rows_len(src, b, (rows - 1) as nat);
    assert((r + 1) * rb == r * rb + rb) by (nonlinear_arith);
    assert(rows * rb == (rows - 1) * rb + rb) by (nonlinear_arith);
    assert(0 <= r * rb <= (rows - 1) * rb) by (nonlinear_arith)
        requires
            0 <= r <= rows - 1,
            rb >= 0,
    ;
    let all = block_rows(src, b, rows);
    let head = block_rows(src, b, (rows - 1) as nat);
    if r == rows - 1 {
        assert(all.subrange(r * rb, (r + 1) * rb) =~= block_row(src, b, r));
    } else {
        lemma_block_rows_row(src, b, (rows - 1) as nat, r);
        assert((r + 1) * rb <= (rows - 1) * rb) by (nonlinear_arith)
            requires
                r + 1 <= rows - 1,
                rb >= 0,
        ;
        assert(all.subrange(r * rb, (r + 1) * rb) =~= head.subrange(r * rb, (r + 1) * rb));
    }
}

/// Writing the rows of a block that the encoder laid out puts the
/// source's bytes at the block's place and changes nothing else.
proof fn lemma_blit_rows(
    src: RawScreenFrame,
    fb: Seq<u8>,
    data: Seq<u8>,
    at: nat,
    b: Block,
    rows: nat,
)
    requires
        src.well_formed(),
        block_inside(b, src),
        rows <= b.height,
        fb.len() == (src.width * src.format.bpp()) * src.height,
        at + b.height * (b.width * src.format.bpp()) <= data.len(),
        data.subrange(at as int, at + b.height * (b.width * src.format.bpp())) == block_pixels(
            src,
            b,
        ),
    ensures
        ({
            let bpp = src.format.bpp();
            let (f, ok) = blit_rows(fb, data, at, b, rows, src.width as nat, bpp);
            &&& ok
            &&& f.len() == fb.len()
            &&& forall|row: int, col: int|
                0 <= row < src.height && 0 <= col < src.width * bpp ==> #[trigger] fb_byte(
                    f,
                    src.width as nat,
                    bpp,
                    row,
                    col,
                ) == (if covers(b, row, col, bpp) && row < b.y + rows {
                    src.byte_at(row, col)
                } else {
                    fb_byte(fb, src.width as nat, bpp, row, col)
                })
        }),
    decreases rows,
{
    let bpp = src.format.bpp();
    let s = src.width * bpp;
    let rb = b.width * bpp;
    let x0 = b.x * bpp;
    if rows > 0 {
        lemma_blit_rows(src, fb, data, at, b, (rows - 1) as nat);
        let (f0, ok0) = blit_rows(fb, data, at, b, (rows - 1) as nat, src.width as nat, bpp);
        let r = rows - 1;
        assert(0 <= x0 && 0 <= rb && x0 + rb <= s && (b.x + b.width) * bpp == x0 + rb)
            by (nonlinear_arith)
            requires
                b.x + b.width <= src.width,
                b.x >= 0,
                b.width >= 0,
                rb == b.width * bpp,
                x0 == b.x * bpp,
                s == src.width * bpp,
        ;
        assert(rows * rb == r * rb + rb && 0 <= r * rb && rows * rb <= b.height * rb)
            by (nonlinear_arith)
            requires
                r == rows - 1,
                rows <= b.height,
                r >= 0,
                rb >= 0,
        ;
        lemma_row_bounds(s as int, src.height as int, b.y + r, x0 as int, (x0 + rb) as int);
        let dst = (b.y + r) * s + x0;
        let bytes = data.subrange((at + r * rb) as int, (at + rows * rb) as int);
        lemma_block_rows_row(src, b, b.height as nat, r);
        let pixels = data.subrange(at as int, at + b.height * rb);
        assert(bytes =~= pixels.subrange(r * rb, (r + 1) * rb)) by {
            assert((r + 1) * rb == rows * rb);
        }
        assert(bytes == block_row(src, b, r));
        lemma_block_rows_len(src, b, b.height as nat);
        assert(bytes.len() == rb);
        lemma_blit(f0, dst, bytes);
        let f = blit(f0, dst, bytes);
        assert(blit_rows(fb, data, at, b, rows, src.width as nat, bpp) == (f, true));
        lemma_row_bounds(
            src.stride as int,
            src.height as int,
            b.y + r,
            x0 as int,
            (x0 + rb) as int,
        );
        assert forall|row: int, col: int|
            0 <= row < src.height && 0 <= col < s implies #[trigger] fb_byte(
            f,
            src.width as nat,
            bpp,
            row,
            col,
        ) == (if covers(b, row, col, bpp) && row < b.y + rows {
            src.byte_at(row, col)
        } else {
            fb_byte(fb, src.width as nat, bpp, row, col)
        }) by {
            let p = row * s + col;
            lemma_row_bounds(s as int, src.height as int, row, col, col + 1);
            assert(0 <= p < fb.len());
            if row == b.y + r {
                if x0 <= col < x0 + rb {
                    assert(f[p] == bytes[col - x0]);
                    assert(bytes[col - x0] == src.data@[(b.y + r) * src.stride + x0 + (col - x0)]);
                } else {
                    assert(!(dst <= p < dst + rb));
                    assert(fb_byte(f0, src.width as nat, bpp, row, col) == f0[p]);
                }
            } else {
                assert(!(dst <= p < dst + rb)) by (nonlinear_arith)
                    requires
                        p == row * s + col,
                        dst == (b.y + r) * s + x0,
                        row != b.y + r,
                        0 <= col < s,
                        0 <= x0,
                        x0 + rb <= s,
                ;
                assert(fb_byte(f0, src.width as nat, bpp, row, col) == f0[p]);
            }
        }
    }
}

/// The blocks `from..to` of a delta payload, one after the other.
pub open spec fn payload_tail(src: RawScreenFrame, blocks: Seq<Block>, from: nat, to: nat) -> Seq<u8>
    decreases to,
{
    if to <= from {
        Seq::empty()
    } else {
        payload_tail(src, blocks, from, (to - 1) as nat) + block_header(blocks[to - 1])
            + block_pixels(src, blocks[to - 1])
    }
}

/// The payload of the first `to` blocks is the payload of the first
/// `from`, then the blocks `from..to`.
proof fn lemma_payload_split(src: RawScreenFrame, blocks: Seq<Block>, from: nat, to: nat)
    requires
        from <= to,
    ensures
        blocks_payload(src, blocks, to) == blocks_payload(src, blocks, from) + payload_tail(
            src,
            blocks,
            from,
            to,
        ),
    decreases to,
{
    if to == from {
        assert(blocks_payload(src, blocks, from) + Seq::<u8>::empty() =~= blocks_payload(
            src,
            blocks,
            from,
        ));
    } else {
        lemma_payload_split(src, blocks, from, (to - 1) as nat);
        assert(blocks_payload(src, blocks, to) =~= blocks_payload(src, blocks, from)
            + payload_tail(src, blocks, from, to));
    }
}

/// In the payload that the encoder lays out, block `k` stands behind the
/// count and the blocks before it: first its header, then its pixels.
proof fn lemma_block_in_payload(src: RawScreenFrame, blocks: Seq<Block>, k: nat)
    requires
        src.well_formed(),
        blocks_inside(blocks, src),
        k < blocks.len(),
    ensures
        ({
            let data = delta_payload(src, blocks);
            let at = 4 + blocks_payload(src, blocks, k).len() as int;
            let n = pixel_bytes(blocks[k as int], src.format.bpp()) as int;
            &&& at + 16 + n <= data.len()
            &&& header_at(data, at) == blocks[k as int]
            &&& data.subrange(at + 16, at + 16 + n) == block_pixels(src, blocks[k as int])
            &&& blocks_payload(src, blocks, k + 1).len() == blocks_payload(src, blocks, k).len()
                + 16 + n
            &&& n == blocks[k as int].height * (blocks[k as int].width * src.format.bpp())
        }),
{
    lemma_auto_spec_u32_to_from_le_bytes();
    let b = blocks[k as int];
    let bpp = src.format.bpp();
    let data = delta_payload(src, blocks);
    let head = blocks_payload(src, blocks, k);
    let at = 4 + head.len() as int;
    let pixels = block_pixels(src, b);
    lemma_block_rows_len(src, b, b.height as nat);
    assert(pixels.len() == pixel_bytes(b, bpp)) by (nonlinear_arith)
        requires
            pixels.len() == b.height * (b.width * bpp),
            pixel_bytes(b, bpp) == b.width as nat * b.height as nat * bpp,
    ;
    lemma_payload_split(src, blocks, k + 1, blocks.len());
    let rest = payload_tail(src, blocks, k + 1, blocks.len());
    let hb = block_header(b);
    assert(hb.len() == 16);
    assert(data =~= spec_u32_to_le_bytes(blocks.len() as u32) + head + hb + pixels + rest);
    assert(data.subrange(at, at + 4) =~= spec_u32_to_le_bytes(b.x));
    assert(data.subrange(at + 4, at + 8) =~= spec_u32_to_le_bytes(b.y));
    assert(data.subrange(at + 8, at + 12) =~= spec_u32_to_le_bytes(b.width));
    assert(data.subrange(at + 12, at + 16) =~= spec_u32_to_le_bytes(b.height));
    assert(data.subrange(at + 16, at + 16 + pixels.len()) =~= pixels);
}

/// Applying the blocks `k..` of a payload that the encoder laid out
/// succeeds, puts the source's bytes wherever one of these blocks covers
/// the framebuffer, and changes nothing else.
proof fn lemma_apply_blocks(src: RawScreenFrame, blocks: Seq<Block>, fb: Seq<u8>, k: nat)
    requires
        src.well_formed(),
        blocks_inside(blocks, src),
        blocks.len() <= u32::MAX,
        k <= blocks.len(),
        fb.len() == (src.width * src.format.bpp()) * src.height,
    ensures
        ({
            let bpp = src.format.bpp();
            let data = delta_payload(src, blocks);
            let at = 4 + blocks_payload(src, blocks, k).len();
            let (f, ok) = apply_blocks(
                fb,
                data,
                at,
                (blocks.len() - k) as nat,
                src.width as nat,
                bpp,
            );
            &&& ok
            &&& f.len() == fb.len()
            &&& blocks_fit(
                data,
                at,
                (blocks.len() - k) as nat,
                src.width as nat,
                src.height as nat,
                bpp,
            )
            &&& forall|row: int, col: int|
                0 <= row < src.height && 0 <= col < src.width * bpp ==> #[trigger] fb_byte(
                    f,
                    src.width as nat,
                    bpp,
                    row,
                    col,
                ) == (if covered(blocks, k as int, blocks.len() as int, row, col, bpp) {
                    src.byte_at(row, col)
                } else {
                    fb_byte(fb, src.width as nat, bpp, row, col)
                })
        }),
    decreases blocks.len() - k,
{
    let bpp = src.format.bpp();
    let data = delta_payload(src, blocks);
    let at = 4 + blocks_payload(src, blocks, k).len();
    if k < blocks.len() {
        let b = blocks[k as int];
        lemma_block_in_payload(src, blocks, k);
        lemma_blit_rows(src, fb, data, at + 16, b, b.height as nat);
        let (f1, ok1) = blit_rows(fb, data, at + 16, b, b.height as nat, src.width as nat, bpp);
        lemma_apply_blocks(src, blocks, f1, k + 1);
        let next = at + 16 + pixel_bytes(b, bpp);
        assert(next == 4 + blocks_payload(src, blocks, k + 1).len());
        let (f, ok) = apply_blocks(
            f1,
            data,
            next,
            (blocks.len() - k - 1) as nat,
            src.width as nat,
            bpp,
        );
        assert(apply_blocks(fb, data, at, (blocks.len() - k) as nat, src.width as nat, bpp) == (
            f,
            ok,
        ));
        assert forall|row: int, col: int|
            0 <= row < src.height && 0 <= col < src.width * bpp implies #[trigger] fb_byte(
            f,
            src.width as nat,
            bpp,
            row,
            col,
        ) == (if covered(blocks, k as int, blocks.len() as int, row, col, bpp) {
            src.byte_at(row, col)
        } else {
            fb_byte(fb, src.width as nat, bpp, row, col)
        }) by {
            let later = covered(blocks, (k + 1) as int, blocks.len() as int, row, col, bpp);
            let here = covers(b, row, col, bpp);
            assert(fb_byte(f1, src.width as nat, bpp, row, col) == (if here {
                src.byte_at(row, col)
            } else {
                fb_byte(fb, src.width as nat, bpp, row, col)
            }));
            if later {
                let i = choose|i: int|
                    k + 1 <= i < blocks.len() && covers(#[trigger] blocks[i], row, col, bpp);
                assert(covers(blocks[i], row, col, bpp));
            }
            if here {
                assert(covers(blocks[k as int], row, col, bpp));
            }
            if covered(blocks, k as int, blocks.len() as int, row, col, bpp) {
                let i = choose|i: int|
                    k <= i < blocks.len() && covers(#[trigger] blocks[i], row, col, bpp);
                if i != k {
                    assert(covers(blocks[i], row, col, bpp));
                    assert(later);
                }
            }
        }
    }
}

/// The way of a delta frame through the encoder and the decoder: applying
/// the payload that the encoder lays out for blocks inside the source to
/// a framebuffer of the source's dimensions succeeds; after it every
/// dirty block of the framebuffer equals the source at that block, and
/// every byte that no block covers is as it was. This holds of a
/// framebuffer prefilled with zeros in particular.
pub proof fn lemma_delta_roundtrip(src: RawScreenFrame, blocks: Seq<Block>, fb: Seq<u8>)
    requires
        src.well_formed(),
        blocks_inside(blocks, src),
        blocks.len() <= u32::MAX,
        fb.len() == src.width as nat * src.height as nat * src.format.bpp(),
    ensures
        ({
            let bpp = src.format.bpp();
            let data = delta_payload(src, blocks);
            let (f, ok) = apply_blocks(
                fb,
                data,
                4,
                u32_at(data, 0) as nat,
                src.width as nat,
                bpp,
            );
            &&& data.len() >= 4
            &&& u32_at(data, 0) == blocks.len()
            &&& payload_fits(data, src.width as nat, src.height as nat, bpp)
            &&& ok
            &&& f.len() == fb.len()
            &&& forall|row: int, col: int|
                0 <= row < src.height && 0 <= col < src.width * bpp ==> #[trigger] fb_byte(
                    f,
                    src.width as nat,
                    bpp,
                    row,
                    col,
                ) == (if covered(blocks, 0, blocks.len() as int, row, col, bpp) {
                    src.byte_at(row, col)
                } else {
                    fb_byte(fb, src.width as nat, bpp, row, col)
                })
        }),
{
    lemma_auto_spec_u32_to_from_le_bytes();
    let bpp = src.format.bpp();
    let data = delta_payload(src, blocks);
    assert(src.width as nat * src.height as nat * bpp == (src.width * bpp) * src.height)
        by (nonlinear_arith);
    assert(data.subrange(0, 4) =~= spec_u32_to_le_bytes(blocks.len() as u32));
    assert(blocks_payload(src, blocks, 0).len() == 0);
    lemma_apply_blocks(src, blocks, fb, 0);
}

/// The way of a full frame through the encoder and the decoder: the
/// payload that the encoder lays out is the framebuffer, and every byte
/// of it equals the source.
pub proof fn lemma_full_roundtrip(src: RawScreenFrame)
    requires
        src.well_formed(),
    ensures
        ({
            let bpp = src.format.bpp();
            let f = full_payload(src);
            &&& f.len() == src.width as nat * src.height as nat * bpp
            &&& forall|row: int, col: int|
                0 <= row < src.height && 0 <= col < src.width * bpp ==> #[trigger] fb_byte(
                    f,
                    src.width as nat,
                    bpp,
                    row,
                    col,
                ) == src.byte_at(row, col)
        }),
{
    let bpp = src.format.bpp();
    let b = whole_screen(src);
    let f = full_payload(src);
    let s = src.width * bpp;
    lemma_block_rows_len(src, b, src.height as nat);
    assert(src.width as nat * src.height as nat * bpp == src.height * (src.width * bpp))
        by (nonlinear_arith);
    assert forall|row: int, col: int|
        0 <= row < src.height && 0 <= col < src.width * bpp implies #[trigger] fb_byte(
        f,
        src.width as nat,
        bpp,
        row,
        col,
    ) == src.byte_at(row, col) by {
        lemma_block_rows_row(src, b, src.height as nat, row);
        lemma_row_bounds(s as int, src.height as int, row, col, s as int);
        assert((row + 1) * s == row * s + s) by (nonlinear_arith);
        assert(f.len() == src.height * s);
        assert(src.height * s == s * src.height) by (nonlinear_arith);
        let r = f.subrange(row * s, (row + 1) * s);
        assert(r[col] == f[row * s + col]);
        lemma_row_bounds(src.stride as int, src.height as int, row, col, s as int);
        assert(0 * bpp == 0) by (nonlinear_arith);
        assert(block_row(src, b, row)[col] == src.data@[row * src.stride + col]);
    }
}

} // verus!
