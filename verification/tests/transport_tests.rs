use std::time::Instant;
use tix_core::rdp::transport::{Offer, CHUNK_HEADER_SIZE, DEFAULT_MTU, FRAME_HEADER_SIZE};
use tix_core::rdp::{ChunkHeader, EncodedFrame, FrameAssembler, FrameHeader, FrameSender};

#[test]
fn frame_header_roundtrip() {
    let hdr = FrameHeader {
        sequence: 42,
        frame_number: 100,
        timestamp_us: 123456,
        width: 1920,
        height: 1080,
        is_full_frame: true,
        total_chunks: 8,
    };

    let encoded = hdr.encode();
    let decoded = FrameHeader::decode(&encoded).unwrap();

    assert_eq!(decoded.sequence, 42);
    assert_eq!(decoded.frame_number, 100);
    assert_eq!(decoded.timestamp_us, 123456);
    assert_eq!(decoded.width, 1920);
    assert_eq!(decoded.height, 1080);
    assert!(decoded.is_full_frame);
    assert_eq!(decoded.total_chunks, 8);
}

#[test]
fn chunk_header_roundtrip() {
    let ch = ChunkHeader {
        sequence: 7,
        chunk_index: 3,
        chunk_size: 1024,
    };

    let encoded = ch.encode();
    let decoded = ChunkHeader::decode(&encoded).unwrap();

    assert_eq!(decoded.sequence, 7);
    assert_eq!(decoded.chunk_index, 3);
    assert_eq!(decoded.chunk_size, 1024);
}

#[test]
fn frame_header_too_short() {
    let short = [0u8; 10];
    assert!(FrameHeader::decode(&short).is_err());
}

#[test]
fn chunk_header_too_short() {
    let short = [0u8; 4];
    assert!(ChunkHeader::decode(&short).is_err());
}

#[test]
fn header_layouts_are_byte_exact() {
    assert_eq!(FRAME_HEADER_SIZE, 33);
    assert_eq!(CHUNK_HEADER_SIZE, 12);
    assert_eq!(DEFAULT_MTU, 1400);
    let hdr = FrameHeader {
        sequence: 0x01020304,
        frame_number: 0x1112131415161718,
        timestamp_us: 0x2122232425262728,
        width: 0x31323334,
        height: 0x41424344,
        is_full_frame: false,
        total_chunks: 0x51525354,
    };
    let b = hdr.encode();
    assert_eq!(b.len(), 33);
    assert_eq!(&b[0..4], &[4, 3, 2, 1]);
    assert_eq!(&b[4..12], &[0x18, 0x17, 0x16, 0x15, 0x14, 0x13, 0x12, 0x11]);
    assert_eq!(&b[12..20], &[0x28, 0x27, 0x26, 0x25, 0x24, 0x23, 0x22, 0x21]);
    assert_eq!(&b[20..24], &[0x34, 0x33, 0x32, 0x31]);
    assert_eq!(&b[24..28], &[0x44, 0x43, 0x42, 0x41]);
    assert_eq!(b[28], 0);
    assert_eq!(&b[29..33], &[0x54, 0x53, 0x52, 0x51]);
    assert_eq!(FrameHeader::decode(&b).unwrap(), hdr);
    let mut full = b;
    full[28] = 0x80;
    assert!(FrameHeader::decode(&full).unwrap().is_full_frame);

    let ch = ChunkHeader { sequence: 1, chunk_index: 2, chunk_size: 3 };
    assert_eq!(ch.encode(), [1, 0, 0, 0, 2, 0, 0, 0, 3, 0, 0, 0]);
    assert_eq!(ChunkHeader::decode(&[1, 0, 0, 0, 2, 0, 0, 0, 3, 0, 0, 0, 99]).unwrap(), ch);
    assert!(ChunkHeader::decode(&[0u8; 11]).is_err());
    assert!(FrameHeader::decode(&[0u8; 32]).is_err());
}

fn frame_of(len: usize) -> EncodedFrame {
    EncodedFrame {
        frame_number: 99,
        timestamp: Instant::now(),
        width: 320,
        height: 240,
        data: vec![0xAB; len],
        is_full_frame: true,
        block_count: 0,
    }
}

#[test]
fn a_frame_is_cut_into_mtu_sized_datagrams() {
    let mut sender = FrameSender::new();
    assert_eq!(sender.mtu(), 1400);
    let frame = frame_of(5000);
    assert!(sender.fits(&frame));
    let datagrams = sender.send_frame(&frame, 777);
    // 5000 bytes in chunks of 1388: 4 chunks after the header
    assert_eq!(datagrams.len(), 5);
    let header = FrameHeader::decode(&datagrams[0]).unwrap();
    assert_eq!(datagrams[0].len(), 33);
    assert_eq!(header.sequence, 0);
    assert_eq!(header.frame_number, 99);
    assert_eq!(header.timestamp_us, 777);
    assert_eq!((header.width, header.height), (320, 240));
    assert!(header.is_full_frame);
    assert_eq!(header.total_chunks, 4);
    let sizes: Vec<usize> = datagrams[1..].iter().map(|d| d.len()).collect();
    assert_eq!(sizes, vec![1400, 1400, 1400, 12 + 836]);
    for (i, d) in datagrams[1..].iter().enumerate() {
        let ch = ChunkHeader::decode(d).unwrap();
        assert_eq!(ch.sequence, 0);
        assert_eq!(ch.chunk_index, i as u32);
        assert_eq!(ch.chunk_size as usize, d.len() - 12);
        assert!(d.len() <= 1400);
    }
    assert_eq!(sender.bytes_sent(), 33 + 4 * 12 + 5000);

    // the sequence number goes up by one for each frame
    let next = sender.send_frame(&frame_of(0), 0);
    assert_eq!(next.len(), 1);
    let header = FrameHeader::decode(&next[0]).unwrap();
    assert_eq!(header.sequence, 1);
    assert_eq!(header.total_chunks, 0);
    assert_eq!(sender.bytes_sent(), 33 + 4 * 12 + 5000 + 33);
}

#[test]
fn chunk_sizes_at_the_edges() {
    let mut sender = FrameSender::new().with_mtu(14);
    assert_eq!(sender.send_frame(&frame_of(1), 0).len(), 2);
    assert_eq!(sender.send_frame(&frame_of(2), 0).len(), 2);
    assert_eq!(sender.send_frame(&frame_of(3), 0).len(), 3);
    let mut sender = FrameSender::new().with_mtu(1400);
    assert_eq!(sender.send_frame(&frame_of(1388), 0).len(), 2);
    assert_eq!(sender.send_frame(&frame_of(1389), 0).len(), 3);
}

fn receive(datagrams: &[Vec<u8>]) -> Option<EncodedFrame> {
    let mut assembler: Option<FrameAssembler> = None;
    for d in datagrams {
        match assembler.as_mut() {
            None => assembler = FrameAssembler::begin(d),
            Some(a) => {
                a.offer(d);
            }
        }
        if assembler.as_ref().map(|a| a.is_complete()).unwrap_or(false) {
            return Some(assembler.take().unwrap().finish(Instant::now()));
        }
    }
    None
}

#[test]
fn sent_then_received_is_the_same_frame() {
    let mut sender = FrameSender::new();
    let mut frame = frame_of(5000);
    for (i, b) in frame.data.iter_mut().enumerate() {
        *b = (i % 253) as u8;
    }
    let datagrams = sender.send_frame(&frame, 1);
    let received = receive(&datagrams).unwrap();
    assert_eq!(received.frame_number, 99);
    assert_eq!(received.width, 320);
    assert_eq!(received.height, 240);
    assert!(received.is_full_frame);
    assert_eq!(received.data.len(), 5000);
    assert_eq!(received.data, frame.data);
    assert_eq!(received.block_count, 0);

    // an empty frame is complete with its header
    let empty = receive(&sender.send_frame(&frame_of(0), 1)).unwrap();
    assert!(empty.data.is_empty());
}

#[test]
fn order_duplicates_and_strays_do_not_matter() {
    let mut sender = FrameSender::new().with_mtu(112);
    let mut frame = frame_of(450);
    for (i, b) in frame.data.iter_mut().enumerate() {
        *b = i as u8;
    }
    let old = sender.send_frame(&frame_of(300), 0);
    let d = sender.send_frame(&frame, 0);
    assert_eq!(d.len(), 6);
    let mut a = FrameAssembler::begin(&d[0]).unwrap();
    assert!(!a.is_complete());
    assert_eq!(a.header().total_chunks, 5);
    assert_eq!(a.offer(&d[5]), Offer::Stored);
    assert_eq!(a.offer(&d[5]), Offer::Ignored); // duplicate
    assert_eq!(a.offer(&old[1]), Offer::Ignored); // another sequence
    assert_eq!(a.offer(&[1, 2, 3]), Offer::Ignored); // too short
    assert_eq!(a.offer(&d[2]), Offer::Stored);
    assert_eq!(a.offer(&d[1]), Offer::Stored);
    // an index out of range
    let stray = ChunkHeader { sequence: 1, chunk_index: 5, chunk_size: 0 };
    assert_eq!(a.offer(&stray.encode()), Offer::Ignored);
    assert_eq!(a.offer(&d[4]), Offer::Stored);
    assert!(!a.is_complete());
    assert_eq!(a.offer(&d[3]), Offer::Stored);
    assert!(a.is_complete());
    assert_eq!(a.finish(Instant::now()).data, frame.data);
}

#[test]
fn the_next_frame_header_restarts_a_stalled_frame() {
    let mut sender = FrameSender::new();
    let first = sender.send_frame(&frame_of(3000), 0);
    let mut second_frame = frame_of(2000);
    second_frame.frame_number = 100;
    let second = sender.send_frame(&second_frame, 0);
    let mut a = FrameAssembler::begin(&first[0]).unwrap();
    assert_eq!(a.offer(&first[1]), Offer::Stored);
    // chunk 2 and 3 are lost; the header of the next frame arrives
    assert_eq!(a.offer(&second[0]), Offer::Restarted);
    assert_eq!(a.header().frame_number, 100);
    assert_eq!(a.header().sequence, 1);
    assert!(!a.is_complete());
    assert_eq!(a.offer(&first[2]), Offer::Ignored);
    assert_eq!(a.offer(&second[1]), Offer::Stored);
    assert_eq!(a.offer(&second[2]), Offer::Stored);
    assert!(a.is_complete());
    assert_eq!(a.finish(Instant::now()).data.len(), 2000);
    // what is not 33 bytes long begins no frame
    assert!(FrameAssembler::begin(&first[1]).is_none());
    assert!(FrameAssembler::begin(&[0u8; 32]).is_none());
}

#[test]
fn the_smallest_mtu_leaves_one_byte_for_each_chunk() {
    let mut sender = FrameSender::new().with_mtu(13);
    assert_eq!(sender.mtu(), 13);
    let frame = frame_of(3);
    assert!(sender.fits(&frame));
    let datagrams = sender.send_frame(&frame, 0);
    assert_eq!(datagrams.len(), 4);
    assert_eq!(datagrams[0].len(), 33);
    for d in &datagrams[1..] {
        assert_eq!(d.len(), 13);
    }
    let received = receive(&datagrams).unwrap();
    assert_eq!(received.data, frame.data);
}
