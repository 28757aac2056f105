//! The file service: metadata, chunked transfer, delta sync, integrity.
//!
//! ```text
//! read:   controller --[FileRead]-------------------> agent   FileTransferRequest
//!         agent --[FileRead + STREAMING]------------> controller   FileTransferHeader
//!         agent --[FileRead + STREAMING]------------> controller   FileChunk (repeated)
//!         agent --[FileRead + FINAL_FRAGMENT]-------> controller   FileHashVerification
//! write:  the mirror image, with an acknowledgement from the agent
//! ```

use vstd::prelude::*;
use vstd::string::StringExecFns;
use crate::error::TixError;
use crate::flags::{ProtocolFlags, FLAG_FINAL_FRAGMENT, FLAG_STREAMING};
use crate::message::{Command, MessageType};
use crate::packet::{constructed, Packet};
use crate::protocol::encoding::lemma_file_hash_roundtrip;
use crate::protocol::encoding::{
    decode_delta_sync, decode_file_chunk, decode_file_hash, decode_file_header,
    decode_file_metadata, decode_file_request, delta_sync_bytes, delta_sync_record,
    encode_delta_sync, encode_file_chunk, encode_file_hash, encode_file_header,
    encode_file_metadata, encode_file_request, file_chunk_bytes, file_chunk_record,
    file_hash_bytes, file_hash_record, file_header_bytes, file_header_record,
    file_metadata_bytes, file_metadata_record, file_request_bytes, file_request_record,
};

verus! {

/// Default chunk size of a transfer: 64 KiB.
pub const DEFAULT_CHUNK_SIZE: usize = 65536;

/// Largest chunk size: 200 KiB, which leaves room in a payload.
pub const MAX_CHUNK_SIZE: usize = 204800;

/// A request to read a file from the remote machine.
#[derive(Debug, Clone, PartialEq)]
pub struct FileTransferRequest {
    /// The remote path.
    pub path: String,
    /// Chunk size in bytes; 0 asks for the default.
    pub chunk_size: u32,
    /// Whether to send only chunks that changed.
    pub delta_sync: bool,
    /// The Blake3 hash of the local copy, for delta sync.
    pub local_hash: Option<[u8; 32]>,
}

impl FileTransferRequest {
    /// A plain download with the default chunk size.
    pub fn download(path: &str) -> (r: FileTransferRequest)
        ensures
            r.path@ == path@,
            r.chunk_size == DEFAULT_CHUNK_SIZE,
            !r.delta_sync,
            r.local_hash.is_none(),
    {
        FileTransferRequest {
            path: String::from_str(path),
            chunk_size: 65536,
            delta_sync: false,
            local_hash: None,
        }
    }

    /// Turns delta sync on, against the given hash of the local copy.
    pub fn with_delta_sync(self, local_hash: [u8; 32]) -> (r: FileTransferRequest)
        ensures
            r == (FileTransferRequest { delta_sync: true, local_hash: Some(local_hash), ..self }),
    {
        let mut r = self;
        r.delta_sync = true;
        r.local_hash = Some(local_hash);
        r
    }

    /// Sets the chunk size.
    pub fn with_chunk_size(self, size: u32) -> (r: FileTransferRequest)
        ensures
            r == (FileTransferRequest { chunk_size: size, ..self }),
    {
        let mut r = self;
        r.chunk_size = size;
        r
    }
}

/// What is sent before the chunks of a file.
#[derive(Debug, Clone, PartialEq)]
pub struct FileTransferHeader {
    /// The path of the file.
    pub path: String,
    /// Size of the file in bytes.
    pub size: u64,
    /// Time of the last change, in seconds since the Unix epoch.
    pub modified: u64,
    /// Permission bits, Unix style.
    pub permissions: u32,
    /// Whether this is a directory.
    pub is_directory: bool,
    /// Number of chunks that follow.
    pub total_chunks: u64,
    /// Chunk size of this transfer.
    pub chunk_size: u32,
}

impl FileTransferHeader {
    /// The number of chunks of `chunk_size` bytes that a file of
    /// `file_size` bytes takes.
    pub open spec fn total_chunks_for(file_size: u64, chunk_size: u32) -> nat {
        if file_size == 0 || chunk_size == 0 {
            0
        } else if file_size % (chunk_size as u64) == 0 {
            (file_size / (chunk_size as u64)) as nat
        } else {
            (file_size / (chunk_size as u64) + 1) as nat
        }
    }

    /// The number of chunks that a file takes: the size over the chunk
    /// size, rounded up. An empty file takes none.
    pub fn compute_total_chunks(file_size: u64, chunk_size: u32) -> (r: u64)
        requires
            file_size == 0 || chunk_size > 0,
        ensures
            r == FileTransferHeader::total_chunks_for(file_size, chunk_size),
    {
        if file_size == 0 {
            return 0;
        }
        let cs = chunk_size as u64;
        let q = file_size / cs;
        if file_size % cs != 0 {
            proof {
                vstd::arithmetic::div_mod::lemma_fundamental_div_mod(file_size as int, cs as int);
            }
            assert(q < file_size) by (nonlinear_arith)
                requires
                    q == file_size / cs,
                    file_size % cs != 0,
                    cs > 0,
                    file_size == cs * (file_size / cs) + file_size % cs,
            ;
            q + 1
        } else {
            q
        }
    }
}

/// One chunk of a file.
#[derive(Debug, Clone, PartialEq)]
pub struct FileChunk {
    /// Offset of the chunk in the file.
    pub offset: u64,
    /// Number of the chunk, from 0.
    pub chunk_index: u64,
    /// The bytes of the chunk.
    pub data: Vec<u8>,
}

impl FileChunk {
    /// A chunk.
    pub fn new(offset: u64, chunk_index: u64, data: Vec<u8>) -> (r: FileChunk)
        ensures
            r == (FileChunk { offset, chunk_index, data }),
    {
        FileChunk { offset, chunk_index, data }
    }
}

/// What a directory listing says of an entry.
#[derive(Debug, Clone, PartialEq)]
pub struct FileMetadata {
    /// Name of the file or directory.
    pub name: String,
    /// Full path.
    pub path: String,
    /// Size in bytes; 0 for a directory.
    pub size: u64,
    /// Time of the last change, in seconds since the Unix epoch.
    pub modified: u64,
    /// Whether the entry is a directory.
    pub is_directory: bool,
    /// The Blake3 hash of the contents, if known.
    pub hash: Option<[u8; 32]>,
}

/// What is sent after the last chunk of a file.
#[derive(Debug, Clone, Copy, PartialEq)]
pub struct FileHashVerification {
    /// The Blake3 hash of the whole file.
    pub blake3_hash: [u8; 32],
    /// Number of bytes transferred.
    pub total_bytes: u64,
    /// Number of chunks sent.
    pub total_chunks: u64,
}

impl FileHashVerification {
    /// A verification record.
    pub fn new(blake3_hash: [u8; 32], total_bytes: u64, total_chunks: u64) -> (r:
        FileHashVerification)
        ensures
            r == (FileHashVerification { blake3_hash, total_bytes, total_chunks }),
    {
        FileHashVerification { blake3_hash, total_bytes, total_chunks }
    }
}

/// A request to synchronise a file by its chunks' hashes.
#[derive(Debug, Clone, PartialEq)]
pub struct DeltaSyncRequest {
    /// The remote path.
    pub path: String,
    /// Chunk size of the split.
    pub chunk_size: u32,
    /// The hash of each local chunk.
    pub chunk_hashes: Vec<DeltaChunkInfo>,
}

/// What delta sync knows of one chunk.
#[derive(Debug, Clone, Copy, PartialEq)]
pub struct DeltaChunkInfo {
    /// Number of the chunk.
    pub index: u64,
    /// Offset of the chunk in the file.
    pub offset: u64,
    /// Length of the chunk in bytes.
    pub length: u32,
    /// The Blake3 hash of the chunk.
    pub hash: [u8; 32],
}

impl DeltaChunkInfo {
    /// A chunk record.
    pub fn new(index: u64, offset: u64, length: u32, hash: [u8; 32]) -> (r: DeltaChunkInfo)
        ensures
            r == (DeltaChunkInfo { index, offset, length, hash }),
    {
        DeltaChunkInfo { index, offset, length, hash }
    }
}

/// What a response packet of a file transfer is.
#[derive(Debug, Clone, Copy, PartialEq, Eq, Structural)]
pub enum FileResponseKind {
    /// A streamed packet: the header or a chunk.
    StreamingChunk,
    /// The hash verification, which ends the exchange.
    HashVerification,
    /// A single response: an acknowledgement or an error.
    SingleResponse,
}

/// Classifies a response by its flags: `FINAL_FRAGMENT` makes it the
/// hash verification; else `STREAMING` makes it a streamed packet; else
/// it is a single response.
pub fn classify_file_response(packet: &Packet) -> (r: FileResponseKind)
    ensures
        r == (if packet@.header.observable_flags() & FLAG_FINAL_FRAGMENT != 0 {
            FileResponseKind::HashVerification
        } else if packet@.header.observable_flags() & FLAG_STREAMING != 0 {
            FileResponseKind::StreamingChunk
        } else {
            FileResponseKind::SingleResponse
        }),
{
    let bits = packet.flags().bits();
    if bits & FLAG_FINAL_FRAGMENT != 0 {
        FileResponseKind::HashVerification
    } else if bits & FLAG_STREAMING != 0 {
        FileResponseKind::StreamingChunk
    } else {
        FileResponseKind::SingleResponse
    }
}

/// The chunks of a delta request as they are encoded.
pub open spec fn info_records(infos: Seq<DeltaChunkInfo>) -> Seq<(u64, u64, u32, Seq<u8>)> {
    Seq::new(
        infos.len(),
        |i: int| (infos[i].index, infos[i].offset, infos[i].length, infos[i].hash.deep_view()),
    )
}

/// The chunks as plain values.
fn info_fields(infos: &Vec<DeltaChunkInfo>) -> (r: Vec<(u64, u64, u32, [u8; 32])>)
    ensures
        r.deep_view() == info_records(infos@),
{
    let mut out: Vec<(u64, u64, u32, [u8; 32])> = Vec::new();
    let mut i: usize = 0;
    while i < infos.len()
        invariant
            i <= infos@.len(),
            out@.len() == i,
            forall|k: int|
                0 <= k < i ==> (#[trigger] out@[k]) == (
                    infos@[k].index,
                    infos@[k].offset,
                    infos@[k].length,
                    infos@[k].hash,
                ),
        decreases infos@.len() - i,
    {
        let info = &infos[i];
        out.push((info.index, info.offset, info.length, info.hash));
        i += 1;
    }
    assert(out.deep_view() =~= info_records(infos@));
    out
}

/// The chunks that these plain values stand for.
fn infos_of(records: Vec<(u64, u64, u32, [u8; 32])>) -> (r: Vec<DeltaChunkInfo>)
    ensures
        info_records(r@) == records.deep_view(),
{
    let mut out: Vec<DeltaChunkInfo> = Vec::new();
    let mut i: usize = 0;
    while i < records.len()
        invariant
            i <= records@.len(),
            out@.len() == i,
            forall|k: int|
                0 <= k < i ==> (#[trigger] out@[k]) == (DeltaChunkInfo {
                    index: records@[k].0,
                    offset: records@[k].1,
                    length: records@[k].2,
                    hash: records@[k].3,
                }),
        decreases records@.len() - i,
    {
        let t = &records[i];
        out.push(DeltaChunkInfo { index: t.0, offset: t.1, length: t.2, hash: t.3 });
        i += 1;
    }
    assert(info_records(out@) =~= records.deep_view());
    out
}

impl FileTransferRequest {
    /// The record of the fields, as it is encoded.
    pub open spec fn record(&self) -> (Seq<char>, u32, bool, Option<Seq<u8>>) {
        (self.path.deep_view(), self.chunk_size, self.delta_sync, self.local_hash.deep_view())
    }

    /// The payload as bytes: the encoding of its record.
    pub fn to_bytes(&self) -> (r: Result<Vec<u8>, TixError>)
        ensures
            match r {
                Ok(bytes) => {
                    &&& file_request_bytes(self.record()) == Some(bytes@)
                    &&& file_request_record(bytes@) == Some(self.record())
                },
                Err(e) => file_request_bytes(self.record()).is_none() && e is Encoding,
            },
    {
        let record = (&self.path, self.chunk_size, self.delta_sync, &self.local_hash);
        assert(record.deep_view() == self.record());
        match encode_file_request(&record) {
            Ok(bytes) => Ok(bytes),
            Err(text) => Err(TixError::Encoding(text)),
        }
    }

    /// Reads the payload from bytes. Bytes that are no encoding of such a
    /// record are refused.
    pub fn from_bytes(bytes: &[u8]) -> (r: Result<FileTransferRequest, TixError>)
        ensures
            match r {
                Ok(v) => file_request_record(bytes@) == Some(v.record()),
                Err(e) => e is Encoding && file_request_record(bytes@).is_none(),
            },
    {
        match decode_file_request(bytes) {
            Ok(record) => {
                let v = FileTransferRequest {
                    path: record.0,
                    chunk_size: record.1,
                    delta_sync: record.2,
                    local_hash: record.3,
                };
                assert(v.record() == record.deep_view());
                Ok(v)
            },
            Err(text) => Err(TixError::Encoding(text)),
        }
    }

    /// The command packet that carries this payload: its bytes are the
    /// payload of the packet. A payload that cannot be encoded, or whose
    /// bytes are over the limit of a packet, gives the error.
    pub fn into_packet(self, request_id: u64) -> (r: Result<Packet, TixError>)
        ensures
            match file_request_bytes(self.record()) {
                Some(payload) => constructed(
                    r,
                    MessageType::Command,
                    request_id,
                    Command::FileRead,
                    payload,
                    0,
                ),
                None => r matches Err(TixError::Encoding(_)),
            },
    {
        match self.to_bytes() {
            Ok(payload) => Packet::new_command(request_id, Command::FileRead, payload),
            Err(e) => Err(e),
        }
    }
}

impl FileTransferHeader {
    /// The record of the fields, as it is encoded.
    pub open spec fn record(&self) -> (Seq<char>, u64, u64, u32, bool, u64, u32) {
        (
            self.path.deep_view(),
            self.size,
            self.modified,
            self.permissions,
            self.is_directory,
            self.total_chunks,
            self.chunk_size,
        )
    }

    /// The payload as bytes: the encoding of its record.
    pub fn to_bytes(&self) -> (r: Result<Vec<u8>, TixError>)
        ensures
            match r {
                Ok(bytes) => {
                    &&& file_header_bytes(self.record()) == Some(bytes@)
                    &&& file_header_record(bytes@) == Some(self.record())
                },
                Err(e) => file_header_bytes(self.record()).is_none() && e is Encoding,
            },
    {
        let record = (
            &self.path,
            self.size,
            self.modified,
            self.permissions,
            self.is_directory,
            self.total_chunks,
            self.chunk_size,
        );
        assert(record.deep_view() == self.record());
        match encode_file_header(&record) {
            Ok(bytes) => Ok(bytes),
            Err(text) => Err(TixError::Encoding(text)),
        }
    }

    /// Reads the payload from bytes. Bytes that are no encoding of such a
    /// record are refused.
    pub fn from_bytes(bytes: &[u8]) -> (r: Result<FileTransferHeader, TixError>)
        ensures
            match r {
                Ok(v) => file_header_record(bytes@) == Some(v.record()),
                Err(e) => e is Encoding && file_header_record(bytes@).is_none(),
            },
    {
        match decode_file_header(bytes) {
            Ok(record) => {
                let v = FileTransferHeader {
                    path: record.0,
                    size: record.1,
                    modified: record.2,
                    permissions: record.3,
                    is_directory: record.4,
                    total_chunks: record.5,
                    chunk_size: record.6,
                };
                assert(v.record() == record.deep_view());
                Ok(v)
            },
            Err(text) => Err(TixError::Encoding(text)),
        }
    }

    /// The response packet that carries this payload: its bytes are the
    /// payload of the packet. A payload that cannot be encoded, or whose
    /// bytes are over the limit of a packet, gives the error.
    pub fn into_packet(self, request_id: u64, command: Command) -> (r: Result<Packet, TixError>)
        ensures
            match file_header_bytes(self.record()) {
                Some(payload) => constructed(
                    r,
                    MessageType::Response,
                    request_id,
                    command,
                    payload,
                    FLAG_STREAMING,
                ),
                None => r matches Err(TixError::Encoding(_)),
            },
    {
        match self.to_bytes() {
            Ok(payload) => Packet::new_response_with_flags(
                request_id,
                command,
                payload,
                ProtocolFlags::streaming(),
            ),
            Err(e) => Err(e),
        }
    }
}

impl FileChunk {
    /// The record of the fields, as it is encoded.
    pub open spec fn record(&self) -> (u64, u64, Seq<u8>) {
        (self.offset, self.chunk_index, self.data.deep_view())
    }

    /// The payload as bytes: the encoding of its record.
    pub fn to_bytes(&self) -> (r: Result<Vec<u8>, TixError>)
        ensures
            match r {
                Ok(bytes) => {
                    &&& file_chunk_bytes(self.record()) == Some(bytes@)
                    &&& file_chunk_record(bytes@) == Some(self.record())
                },
                Err(e) => file_chunk_bytes(self.record()).is_none() && e is Encoding,
            },
    {
        let record = (self.offset, self.chunk_index, &self.data);
        assert(record.deep_view() == self.record());
        match encode_file_chunk(&record) {
            Ok(bytes) => Ok(bytes),
            Err(text) => Err(TixError::Encoding(text)),
        }
    }

    /// Reads the payload from bytes. Bytes that are no encoding of such a
    /// record are refused.
    pub fn from_bytes(bytes: &[u8]) -> (r: Result<FileChunk, TixError>)
        ensures
            match r {
                Ok(v) => file_chunk_record(bytes@) == Some(v.record()),
                Err(e) => e is Encoding && file_chunk_record(bytes@).is_none(),
            },
    {
        match decode_file_chunk(bytes) {
            Ok(record) => {
                let v = FileChunk { offset: record.0, chunk_index: record.1, data: record.2 };
                assert(v.record() == record.deep_view());
                Ok(v)
            },
            Err(text) => Err(TixError::Encoding(text)),
        }
    }

    /// The response packet that carries this payload: its bytes are the
    /// payload of the packet. A payload that cannot be encoded, or whose
    /// bytes are over the limit of a packet, gives the error.
    pub fn into_packet(self, request_id: u64, command: Command) -> (r: Result<Packet, TixError>)
        ensures
            match file_chunk_bytes(self.record()) {
                Some(payload) => constructed(
                    r,
                    MessageType::Response,
                    request_id,
                    command,
                    payload,
                    FLAG_STREAMING,
                ),
                None => r matches Err(TixError::Encoding(_)),
            },
    {
        match self.to_bytes() {
            Ok(payload) => Packet::new_response_with_flags(
                request_id,
                command,
                payload,
                ProtocolFlags::streaming(),
            ),
            Err(e) => Err(e),
        }
    }
}

impl FileMetadata {
    /// The record of the fields, as it is encoded.
    pub open spec fn record(&self) -> (Seq<char>, Seq<char>, u64, u64, bool, Option<Seq<u8>>) {
        (
            self.name.deep_view(),
            self.path.deep_view(),
            self.size,
            self.modified,
            self.is_directory,
            self.hash.deep_view(),
        )
    }

    /// The payload as bytes: the encoding of its record.
    pub fn to_bytes(&self) -> (r: Result<Vec<u8>, TixError>)
        ensures
            match r {
                Ok(bytes) => {
                    &&& file_metadata_bytes(self.record()) == Some(bytes@)
                    &&& file_metadata_record(bytes@) == Some(self.record())
                },
                Err(e) => file_metadata_bytes(self.record()).is_none() && e is Encoding,
            },
    {
        let record = (
            &self.name,
            &self.path,
            self.size,
            self.modified,
            self.is_directory,
            &self.hash,
        );
        assert(record.deep_view() == self.record());
        match encode_file_metadata(&record) {
            Ok(bytes) => Ok(bytes),
            Err(text) => Err(TixError::Encoding(text)),
        }
    }

    /// Reads the payload from bytes. Bytes that are no encoding of such a
    /// record are refused.
    pub fn from_bytes(bytes: &[u8]) -> (r: Result<FileMetadata, TixError>)
        ensures
            match r {
                Ok(v) => file_metadata_record(bytes@) == Some(v.record()),
                Err(e) => e is Encoding && file_metadata_record(bytes@).is_none(),
            },
    {
        match decode_file_metadata(bytes) {
            Ok(record) => {
                let v = FileMetadata {
                    name: record.0,
                    path: record.1,
                    size: record.2,
                    modified: record.3,
                    is_directory: record.4,
                    hash: record.5,
                };
                assert(v.record() == record.deep_view());
                Ok(v)
            },
            Err(text) => Err(TixError::Encoding(text)),
        }
    }
}

impl FileHashVerification {
    /// The record of the fields, as it is encoded.
    pub open spec fn record(&self) -> (Seq<u8>, u64, u64) {
        (self.blake3_hash.deep_view(), self.total_bytes, self.total_chunks)
    }

    /// The payload as bytes: the encoding of its record.
    pub fn to_bytes(&self) -> (r: Result<Vec<u8>, TixError>)
        ensures
            r is Ok,
            match r {
                Ok(bytes) => {
                    &&& file_hash_bytes(self.record()) == Some(bytes@)
                    &&& file_hash_record(bytes@) == Some(self.record())
                },
                Err(e) => file_hash_bytes(self.record()).is_none() && e is Encoding,
            },
    {
        proof {
            assert(self.record().0.len() == 32);
            lemma_file_hash_roundtrip(self.record(), Seq::empty());
            assert(file_hash_bytes(self.record()).unwrap() + Seq::<u8>::empty() =~= file_hash_bytes(
                self.record(),
            ).unwrap());
        }
        let record = (&self.blake3_hash, self.total_bytes, self.total_chunks);
        assert(record.deep_view() == self.record());
        match encode_file_hash(&record) {
            Ok(bytes) => Ok(bytes),
            Err(text) => Err(TixError::Encoding(text)),
        }
    }

    /// Reads the payload from bytes. Bytes that are no encoding of such a
    /// record are refused.
    pub fn from_bytes(bytes: &[u8]) -> (r: Result<FileHashVerification, TixError>)
        ensures
            match r {
                Ok(v) => file_hash_record(bytes@) == Some(v.record()),
                Err(e) => e is Encoding && file_hash_record(bytes@).is_none(),
            },
    {
        match decode_file_hash(bytes) {
            Ok(record) => {
                let v = FileHashVerification {
                    blake3_hash: record.0,
                    total_bytes: record.1,
                    total_chunks: record.2,
                };
                assert(v.record() == record.deep_view());
                Ok(v)
            },
            Err(text) => Err(TixError::Encoding(text)),
        }
    }

    /// The response packet that carries this payload: its bytes are the
    /// payload of the packet. A payload that cannot be encoded, or whose
    /// bytes are over the limit of a packet, gives the error.
    pub fn into_packet(self, request_id: u64, command: Command) -> (r: Result<Packet, TixError>)
        ensures
            r is Ok,
            match file_hash_bytes(self.record()) {
                Some(payload) => constructed(
                    r,
                    MessageType::Response,
                    request_id,
                    command,
                    payload,
                    FLAG_FINAL_FRAGMENT,
                ),
                None => r matches Err(TixError::Encoding(_)),
            },
    {
        proof {
            assert(self.record().0.len() == 32);
            lemma_file_hash_roundtrip(self.record(), Seq::empty());
        }
        match self.to_bytes() {
            Ok(payload) => Packet::new_response_with_flags(
                request_id,
                command,
                payload,
                ProtocolFlags::final_fragment(),
            ),
            Err(e) => Err(e),
        }
    }
}

impl DeltaSyncRequest {
    /// The record of the fields, as it is encoded.
    pub open spec fn record(&self) -> (Seq<char>, u32, Seq<(u64, u64, u32, Seq<u8>)>) {
        (self.path.deep_view(), self.chunk_size, info_records(self.chunk_hashes@))
    }

    /// The payload as bytes: the encoding of its record.
    pub fn to_bytes(&self) -> (r: Result<Vec<u8>, TixError>)
        ensures
            match r {
                Ok(bytes) => {
                    &&& delta_sync_bytes(self.record()) == Some(bytes@)
                    &&& delta_sync_record(bytes@) == Some(self.record())
                },
                Err(e) => delta_sync_bytes(self.record()).is_none() && e is Encoding,
            },
    {
        let infos = info_fields(&self.chunk_hashes);
        let record = (&self.path, self.chunk_size, &infos);
        assert(record.deep_view() == self.record());
        match encode_delta_sync(&record) {
            Ok(bytes) => Ok(bytes),
            Err(text) => Err(TixError::Encoding(text)),
        }
    }

    /// Reads the payload from bytes. Bytes that are no encoding of such a
    /// record are refused.
    pub fn from_bytes(bytes: &[u8]) -> (r: Result<DeltaSyncRequest, TixError>)
        ensures
            match r {
                Ok(v) => delta_sync_record(bytes@) == Some(v.record()),
                Err(e) => e is Encoding && delta_sync_record(bytes@).is_none(),
            },
    {
        match decode_delta_sync(bytes) {
            Ok(record) => {
                let v = DeltaSyncRequest {
                    path: record.0,
                    chunk_size: record.1,
                    chunk_hashes: infos_of(record.2),
                };
                assert(v.record() == record.deep_view());
                Ok(v)
            },
            Err(text) => Err(TixError::Encoding(text)),
        }
    }
}

} // verus!
