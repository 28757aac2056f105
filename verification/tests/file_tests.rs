use tix_core::protocol::file::{
    classify_file_response, DeltaChunkInfo, DeltaSyncRequest, FileChunk, FileHashVerification,
    FileMetadata, FileResponseKind, FileTransferHeader, FileTransferRequest, DEFAULT_CHUNK_SIZE,
    MAX_CHUNK_SIZE,
};
use tix_core::{Command, MessageType, Packet, ProtocolFlags, TixError};

#[test]
fn file_transfer_request_roundtrip() {
    let req = FileTransferRequest::download("/home/user/file.txt").with_chunk_size(32768);

    let bytes = req.to_bytes().unwrap();
    let decoded = FileTransferRequest::from_bytes(&bytes).unwrap();
    assert_eq!(req, decoded);
    assert_eq!(decoded.path, "/home/user/file.txt");
    assert_eq!(decoded.chunk_size, 32768);
    assert!(!decoded.delta_sync);
}

#[test]
fn file_transfer_request_with_delta() {
    let hash = [0xABu8; 32];
    let req = FileTransferRequest::download("file.bin").with_delta_sync(hash);

    let bytes = req.to_bytes().unwrap();
    let decoded = FileTransferRequest::from_bytes(&bytes).unwrap();
    assert!(decoded.delta_sync);
    assert_eq!(decoded.local_hash.unwrap(), hash);
}

#[test]
fn file_transfer_header_roundtrip() {
    let header = FileTransferHeader {
        path: "C:\\data\\report.pdf".to_string(),
        size: 1_048_576,
        modified: 1700000000,
        permissions: 0o644,
        is_directory: false,
        total_chunks: 16,
        chunk_size: DEFAULT_CHUNK_SIZE as u32,
    };

    let bytes = header.to_bytes().unwrap();
    let decoded = FileTransferHeader::from_bytes(&bytes).unwrap();
    assert_eq!(header, decoded);
}

#[test]
fn file_chunk_roundtrip() {
    let data = vec![0xDE, 0xAD, 0xBE, 0xEF];
    let chunk = FileChunk::new(0, 0, data.clone());

    let bytes = chunk.to_bytes().unwrap();
    let decoded = FileChunk::from_bytes(&bytes).unwrap();
    assert_eq!(decoded.data, data);
    assert_eq!(decoded.offset, 0);
}

#[test]
fn file_metadata_roundtrip() {
    let meta = FileMetadata {
        name: "report.pdf".to_string(),
        path: "C:\\docs\\report.pdf".to_string(),
        size: 2048,
        modified: 1700000000,
        is_directory: false,
        hash: Some([0x42; 32]),
    };

    let bytes = meta.to_bytes().unwrap();
    let decoded = FileMetadata::from_bytes(&bytes).unwrap();
    assert_eq!(meta, decoded);
}

#[test]
fn file_hash_verification_roundtrip() {
    let hash = blake3::hash(b"test content");
    let verify = FileHashVerification::new(*hash.as_bytes(), 12, 1);

    let bytes = verify.to_bytes().unwrap();
    let decoded = FileHashVerification::from_bytes(&bytes).unwrap();
    assert_eq!(verify, decoded);
}

#[test]
fn delta_sync_request_roundtrip() {
    let req = DeltaSyncRequest {
        path: "data.bin".to_string(),
        chunk_size: DEFAULT_CHUNK_SIZE as u32,
        chunk_hashes: vec![
            DeltaChunkInfo::new(0, 0, 65536, [0x11; 32]),
            DeltaChunkInfo::new(1, 65536, 65536, [0x22; 32]),
        ],
    };

    let bytes = req.to_bytes().unwrap();
    let decoded = DeltaSyncRequest::from_bytes(&bytes).unwrap();
    assert_eq!(req, decoded);
    assert_eq!(decoded.chunk_hashes.len(), 2);
}

#[test]
fn file_payloads_have_these_bytes() {
    // a hash travels as its 32 bytes, without a length
    let verify = FileHashVerification::new([7; 32], 12, 1);
    let mut expected = vec![7u8; 32];
    expected.extend_from_slice(&12u64.to_le_bytes());
    expected.extend_from_slice(&1u64.to_le_bytes());
    assert_eq!(verify.to_bytes().unwrap(), expected);

    // a text behind its length, an optional hash behind one byte
    let req = FileTransferRequest::download("ab").with_chunk_size(5);
    assert_eq!(
        req.to_bytes().unwrap(),
        vec![2, 0, 0, 0, 0, 0, 0, 0, b'a', b'b', 5, 0, 0, 0, 0, 0]
    );
    let with_hash = FileTransferRequest::download("").with_delta_sync([9; 32]).to_bytes().unwrap();
    assert_eq!(with_hash.len(), 8 + 4 + 1 + 1 + 32);
    assert_eq!(&with_hash[12..14], &[1, 1]);

    // the chunks of a delta request behind their number
    let delta = DeltaSyncRequest {
        path: String::new(),
        chunk_size: 1,
        chunk_hashes: vec![DeltaChunkInfo::new(3, 4, 5, [6; 32])],
    };
    let bytes = delta.to_bytes().unwrap();
    assert_eq!(bytes.len(), 8 + 4 + 8 + (8 + 8 + 4 + 32));
    assert_eq!(&bytes[12..20], &1u64.to_le_bytes());
    assert_eq!(&bytes[20..28], &3u64.to_le_bytes());
    assert_eq!(&bytes[40..], &[6u8; 32]);
    let none = DeltaSyncRequest { path: String::new(), chunk_size: 1, chunk_hashes: Vec::new() };
    assert_eq!(DeltaSyncRequest::from_bytes(&none.to_bytes().unwrap()).unwrap(), none);
}

#[test]
fn bytes_that_are_no_file_payload_are_refused() {
    assert!(matches!(FileChunk::from_bytes(&[0; 15]), Err(TixError::Encoding(_))));
    assert!(matches!(FileHashVerification::from_bytes(&[0; 47]), Err(TixError::Encoding(_))));
    assert!(matches!(FileTransferRequest::from_bytes(&[]), Err(TixError::Encoding(_))));
    // an optional hash whose mark is neither 0 nor 1
    let mut bytes = FileTransferRequest::download("a").to_bytes().unwrap();
    let last = bytes.len() - 1;
    bytes[last] = 2;
    assert!(matches!(FileTransferRequest::from_bytes(&bytes), Err(TixError::Encoding(_))));
    // more chunks announced than there are
    let delta = DeltaSyncRequest {
        path: String::new(),
        chunk_size: 1,
        chunk_hashes: vec![DeltaChunkInfo::new(0, 0, 1, [0; 32])],
    };
    let mut bytes = delta.to_bytes().unwrap();
    bytes[12] = 2;
    assert!(matches!(DeltaSyncRequest::from_bytes(&bytes), Err(TixError::Encoding(_))));
}

#[test]
fn compute_total_chunks() {
    assert_eq!(FileTransferHeader::compute_total_chunks(0, 65536), 0);
    assert_eq!(FileTransferHeader::compute_total_chunks(1, 65536), 1);
    assert_eq!(FileTransferHeader::compute_total_chunks(65536, 65536), 1);
    assert_eq!(FileTransferHeader::compute_total_chunks(65537, 65536), 2);
    assert_eq!(
        FileTransferHeader::compute_total_chunks(1_000_000, 65536),
        16
    );
}

#[test]
fn file_transfer_into_packet() {
    let req = FileTransferRequest::download("test.txt");
    let packet = req.into_packet(42).unwrap();

    assert_eq!(packet.command().unwrap(), Command::FileRead);
    assert_eq!(packet.request_id(), 42);

    let decoded = FileTransferRequest::from_bytes(packet.payload()).unwrap();
    assert_eq!(decoded.path, "test.txt");
}

#[test]
fn download_defaults_and_limits() {
    let req = FileTransferRequest::download("a");
    assert_eq!(req.chunk_size as usize, DEFAULT_CHUNK_SIZE);
    assert_eq!(DEFAULT_CHUNK_SIZE, 64 * 1024);
    assert_eq!(MAX_CHUNK_SIZE, 200 * 1024);
    assert!(!req.delta_sync);
    assert!(req.local_hash.is_none());
    assert_eq!(FileTransferHeader::compute_total_chunks(u64::MAX, 1), u64::MAX);
    assert_eq!(FileTransferHeader::compute_total_chunks(0, 0), 0);
    assert_eq!(FileTransferHeader::compute_total_chunks(10, u32::MAX), 1);
}

#[test]
fn file_packets_carry_their_flags() {
    let header = FileTransferHeader {
        path: "f".to_string(),
        size: 1,
        modified: 0,
        permissions: 0,
        is_directory: false,
        total_chunks: 1,
        chunk_size: 1,
    };
    let p = header.clone().into_packet(8, Command::FileRead).unwrap();
    assert_eq!(FileTransferHeader::from_bytes(p.payload()).unwrap(), header);
    assert_eq!(p.message_type(), MessageType::Response);
    assert_eq!(p.command().unwrap(), Command::FileRead);
    assert_eq!(p.flags(), ProtocolFlags::streaming());
    assert_eq!(classify_file_response(&p), FileResponseKind::StreamingChunk);

    let chunk = FileChunk::new(0, 0, vec![1]).into_packet(8, Command::FileWrite).unwrap();
    assert_eq!(chunk.command().unwrap(), Command::FileWrite);
    assert_eq!(chunk.flags(), ProtocolFlags::streaming());

    let done = FileHashVerification::new([1; 32], 1, 1)
        .into_packet(8, Command::FileRead)
        .unwrap();
    assert_eq!(done.flags(), ProtocolFlags::final_fragment());
    assert_eq!(classify_file_response(&done), FileResponseKind::HashVerification);

    let ack = Packet::new_response(8, Command::FileWrite, Vec::new()).unwrap();
    assert_eq!(classify_file_response(&ack), FileResponseKind::SingleResponse);
}
