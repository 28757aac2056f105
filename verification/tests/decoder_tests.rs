use std::time::Instant;
use tix_core::rdp::{
    AdaptiveEncoder, Block, DecodedFrame, DeltaFrame, EncodedFrame, FrameDecoder, PixelFormat,
    RawScreenFrame,
};
use tix_core::TixError;

fn test_frame(w: u32, h: u32, fill: u8) -> RawScreenFrame {
    let stride = w * 4;
    RawScreenFrame {
        width: w,
        height: h,
        stride,
        format: PixelFormat::Bgra8,
        data: vec![fill; (stride * h) as usize],
        timestamp: Instant::now(),
    }
}

#[test]
fn full_frame_roundtrip() {
    let source = test_frame(64, 64, 0xCD);
    let delta = DeltaFrame {
        frame_number: 0,
        timestamp: Instant::now(),
        width: 64,
        height: 64,
        changed_blocks: vec![Block { x: 0, y: 0, width: 64, height: 64 }],
        full_frame: true,
    };

    let mut enc = AdaptiveEncoder::new(100_000_000);
    let encoded = enc.encode(&delta, &source).unwrap();

    let mut dec = FrameDecoder::new();
    let decoded = dec.decode(&encoded).unwrap();
    assert!(decoded.is_full_frame);

    let bpp = 4;
    let buf = dec.apply(&decoded, bpp).unwrap();
    // Every pixel should be 0xCD.
    assert_eq!(buf.len(), 64 * 64 * 4);
    assert!(buf.iter().all(|&b| b == 0xCD));
}

#[test]
fn delta_frame_roundtrip() {
    let source = test_frame(128, 128, 0x42);
    let delta = DeltaFrame {
        frame_number: 1,
        timestamp: Instant::now(),
        width: 128,
        height: 128,
        changed_blocks: vec![Block { x: 0, y: 0, width: 32, height: 32 }],
        full_frame: false,
    };

    let mut enc = AdaptiveEncoder::new(100_000_000);
    let encoded = enc.encode(&delta, &source).unwrap();

    let mut dec = FrameDecoder::new();
    let decoded = dec.decode(&encoded).unwrap();
    assert!(!decoded.is_full_frame);

    let bpp = 4;
    let buf = dec.apply(&decoded, bpp).unwrap();
    // First 32×32 block should be 0x42, rest should be 0.
    let row_stride = 128 * 4;
    for y in 0..32 {
        for x in 0..32 {
            let off = y * row_stride + x * 4;
            assert_eq!(buf[off], 0x42, "pixel ({x},{y}) mismatch");
        }
    }
}

#[test]
fn extract_blocks_works() {
    let source = test_frame(128, 128, 0xFF);
    let delta = DeltaFrame {
        frame_number: 0,
        timestamp: Instant::now(),
        width: 128,
        height: 128,
        changed_blocks: vec![
            Block { x: 0, y: 0, width: 16, height: 16 },
            Block { x: 64, y: 64, width: 16, height: 16 },
        ],
        full_frame: false,
    };

    let mut enc = AdaptiveEncoder::new(100_000_000);
    let encoded = enc.encode(&delta, &source).unwrap();

    let mut dec = FrameDecoder::new();
    let decoded = dec.decode(&encoded).unwrap();

    let blocks = FrameDecoder::extract_blocks(&decoded.data, 4).unwrap();
    assert_eq!(blocks.len(), 2);
    assert_eq!(blocks[0].width, 16);
    assert_eq!(blocks[1].x, 64);
}

#[test]
fn full_frame_of_128_by_128() {
    let source = test_frame(128, 128, 0xCD);
    let delta = DeltaFrame {
        frame_number: 0,
        timestamp: Instant::now(),
        width: 128,
        height: 128,
        changed_blocks: vec![Block { x: 0, y: 0, width: 128, height: 128 }],
        full_frame: true,
    };
    let mut enc = AdaptiveEncoder::new(100_000_000);
    let encoded = enc.encode(&delta, &source).unwrap();
    let mut dec = FrameDecoder::new();
    assert!(dec.frame_buffer().is_empty());
    let decoded = dec.decode(&encoded).unwrap();
    assert!(dec.can_apply(&decoded, 4));
    let buf = dec.apply(&decoded, 4).unwrap();
    assert_eq!(buf.len(), 128 * 128 * 4);
    assert!(buf.iter().all(|&b| b == 0xCD));
    assert_eq!(dec.frame_buffer().len(), 128 * 128 * 4);
}

fn delta_payload(blocks: &[(u32, u32, u32, u32, Vec<u8>)]) -> Vec<u8> {
    let mut out = (blocks.len() as u32).to_le_bytes().to_vec();
    for (x, y, w, h, px) in blocks {
        out.extend_from_slice(&x.to_le_bytes());
        out.extend_from_slice(&y.to_le_bytes());
        out.extend_from_slice(&w.to_le_bytes());
        out.extend_from_slice(&h.to_le_bytes());
        out.extend_from_slice(px);
    }
    out
}

fn delta_frame(w: u32, h: u32, data: Vec<u8>) -> DecodedFrame {
    DecodedFrame { width: w, height: h, is_full_frame: false, data, block_count: 0 }
}

#[test]
fn blocks_are_written_at_their_place() {
    // a screen of 4 x 3 pixels of 1 byte
    let mut dec = FrameDecoder::new();
    let data = delta_payload(&[(1, 1, 2, 2, vec![1, 2, 3, 4]), (3, 0, 1, 1, vec![9])]);
    let frame = delta_frame(4, 3, data);
    assert!(dec.can_apply(&frame, 1));
    let buf = dec.apply(&frame, 1).unwrap();
    assert_eq!(buf, &[0, 0, 0, 9, 0, 1, 2, 0, 0, 3, 4, 0]);
    // a later delta patches the same buffer
    let frame = delta_frame(4, 3, delta_payload(&[(0, 2, 1, 1, vec![7])]));
    let buf = dec.apply(&frame, 1).unwrap();
    assert_eq!(buf, &[0, 0, 0, 9, 0, 1, 2, 0, 7, 3, 4, 0]);
    // other dimensions start from a blank buffer
    let frame = delta_frame(2, 2, delta_payload(&[(0, 0, 1, 1, vec![5])]));
    assert_eq!(dec.apply(&frame, 1).unwrap(), &[5, 0, 0, 0]);
}

#[test]
fn truncation_is_a_decode_error() {
    let mut dec = FrameDecoder::new();
    // no block count
    let frame = delta_frame(4, 3, vec![1, 0]);
    assert!(dec.can_apply(&frame, 1));
    assert!(matches!(dec.apply(&frame, 1), Err(TixError::Other(_))));
    // cut inside a header
    let mut data = delta_payload(&[(0, 0, 1, 1, vec![1])]);
    data.truncate(4 + 10);
    let frame = delta_frame(4, 3, data);
    assert!(matches!(dec.apply(&frame, 1), Err(TixError::Other(_))));
    // cut inside the pixels: the rows before the cut are written
    let mut data = delta_payload(&[(0, 0, 2, 2, vec![1, 2, 3, 4])]);
    data.truncate(4 + 16 + 3);
    let frame = delta_frame(4, 3, data.clone());
    assert!(dec.can_apply(&frame, 1));
    assert!(matches!(dec.apply(&frame, 1), Err(TixError::Other(_))));
    assert_eq!(dec.frame_buffer(), &[1, 2, 0, 0, 0, 0, 0, 0, 0, 0, 0, 0]);
    assert!(FrameDecoder::extract_blocks(&data, 1).is_err());
    // a count that promises more blocks than there are
    let mut data = delta_payload(&[(0, 0, 1, 1, vec![1])]);
    data[0] = 2;
    assert!(FrameDecoder::extract_blocks(&data, 1).is_err());
    assert!(FrameDecoder::extract_blocks(&[0, 0, 0], 1).is_err());
    // a full frame that is too short
    let frame = DecodedFrame {
        width: 4,
        height: 3,
        is_full_frame: true,
        data: vec![1; 11],
        block_count: 0,
    };
    assert!(matches!(dec.apply(&frame, 1), Err(TixError::Other(_))));
}

#[test]
fn blocks_outside_the_screen_are_not_accepted() {
    let dec = FrameDecoder::new();
    let frame = delta_frame(4, 3, delta_payload(&[(3, 0, 2, 1, vec![1, 2])]));
    assert!(!dec.can_apply(&frame, 1));
    let frame = delta_frame(4, 3, delta_payload(&[(0, 2, 1, 2, vec![1, 2])]));
    assert!(!dec.can_apply(&frame, 1));
    let frame = delta_frame(4, 3, delta_payload(&[(0, 0, 4, 3, vec![0; 12])]));
    assert!(dec.can_apply(&frame, 1));
    // a block behind a cut is never read
    let mut data = delta_payload(&[(0, 0, 1, 1, vec![1]), (9, 9, 9, 9, vec![])]);
    data.truncate(4 + 16 + 1 + 8);
    assert!(dec.can_apply(&delta_frame(4, 3, data), 1));
}

#[test]
fn extract_blocks_gives_headers_and_pixels() {
    let data = delta_payload(&[(1, 2, 2, 1, vec![1, 2, 3, 4, 5, 6]), (0, 0, 0, 5, vec![])]);
    let blocks = FrameDecoder::extract_blocks(&data, 3).unwrap();
    assert_eq!(blocks.len(), 2);
    assert_eq!(
        (blocks[0].x, blocks[0].y, blocks[0].width, blocks[0].height),
        (1, 2, 2, 1)
    );
    assert_eq!(blocks[0].data, vec![1, 2, 3, 4, 5, 6]);
    assert_eq!(blocks[1].height, 5);
    assert!(blocks[1].data.is_empty());
    assert!(FrameDecoder::extract_blocks(&[0, 0, 0, 0], 4).unwrap().is_empty());
}

#[test]
fn garbage_does_not_decompress() {
    let mut dec = FrameDecoder::default();
    let encoded = EncodedFrame {
        frame_number: 1,
        timestamp: Instant::now(),
        width: 1,
        height: 1,
        data: vec![1, 2, 3, 4, 5],
        is_full_frame: true,
        block_count: 0,
    };
    assert!(matches!(dec.decode(&encoded), Err(TixError::Other(_))));
    let good = EncodedFrame {
        data: zstd::encode_all(&[7u8, 8, 9][..], 1).unwrap(),
        ..encoded.clone()
    };
    let decoded = dec.decode(&good).unwrap();
    assert_eq!(decoded.data, vec![7, 8, 9]);
    assert_eq!((decoded.width, decoded.height), (1, 1));
    assert!(decoded.is_full_frame);
}

#[test]
fn dirty_blocks_equal_the_source_after_the_roundtrip() {
    let mut source = test_frame(40, 30, 0);
    source.stride = 40 * 4 + 12;
    source.data = (0..(source.stride * 30) as usize).map(|i| (i * 7 % 251) as u8).collect();
    let blocks = vec![
        Block { x: 3, y: 2, width: 10, height: 5 },
        Block { x: 8, y: 4, width: 20, height: 20 },
        Block { x: 39, y: 29, width: 1, height: 1 },
    ];
    let delta = DeltaFrame {
        frame_number: 1,
        timestamp: Instant::now(),
        width: 40,
        height: 30,
        changed_blocks: blocks.clone(),
        full_frame: false,
    };
    let mut enc = AdaptiveEncoder::new(1_000_000);
    let encoded = enc.encode(&delta, &source).unwrap();
    let mut dec = FrameDecoder::new();
    let decoded = dec.decode(&encoded).unwrap();
    assert!(dec.can_apply(&decoded, 4));
    let buf = dec.apply(&decoded, 4).unwrap().to_vec();
    let mut dirty = vec![false; 40 * 30];
    for b in &blocks {
        for y in b.y..b.y + b.height {
            for x in b.x..b.x + b.width {
                dirty[(y * 40 + x) as usize] = true;
            }
        }
    }
    for y in 0..30usize {
        for x in 0..40usize {
            for c in 0..4usize {
                let got = buf[(y * 40 + x) * 4 + c];
                if dirty[y * 40 + x] {
                    assert_eq!(got, source.data[y * source.stride as usize + x * 4 + c]);
                } else {
                    assert_eq!(got, 0);
                }
            }
        }
    }
}
