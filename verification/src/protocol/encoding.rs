//! The bytes of the payloads: each payload travels as the `bincode`
//! encoding of the record of its fields, in the order of the fields.
//!
//! The encoding is `bincode`'s own: integers at their fixed width and
//! little endian, texts and lists behind their length as a `u64`, an
//! optional value behind one byte that says whether it is there, the
//! variant of an enum as a `u32`. This module calls it. Of a record of
//! fixed width it states the bytes; of the others it gives the results
//! names and does not write the format out.

use vstd::prelude::*;
use vstd::bytes::{
    lemma_auto_spec_u16_to_from_le_bytes, lemma_auto_spec_u32_to_from_le_bytes,
    lemma_auto_spec_u64_to_from_le_bytes, spec_u16_from_le_bytes, spec_u16_to_le_bytes,
    spec_u32_from_le_bytes, spec_u32_to_le_bytes, spec_u64_from_le_bytes, spec_u64_to_le_bytes,
};

verus! {

/// What `bincode::serialize` returns for the record of a request to run a
/// shell command: its bytes, or `None` where it fails.
pub uninterp spec fn shell_execute_bytes(record: (
    Seq<char>,
    bool,
    u64,
    Seq<(Seq<char>, Seq<char>)>,
    Option<Seq<char>>,
)) -> Option<Seq<u8>>;

/// What `bincode::deserialize` reads from `bytes` as the record of a
/// request to run a shell command, or `None` where it fails.
pub uninterp spec fn shell_execute_record(bytes: Seq<u8>) -> Option<(
    Seq<char>,
    bool,
    u64,
    Seq<(Seq<char>, Seq<char>)>,
    Option<Seq<char>>,
)>;

/// `bincode::serialize` on the record of a request to run a shell command.
/// The outcome depends on the record alone, and the bytes that it gives are
/// read back by `bincode::deserialize` as the same record.
#[verifier::external_body]
pub(crate) fn encode_shell_execute(record: &(
    &String,
    bool,
    u64,
    &Vec<(String, String)>,
    &Option<String>,
)) -> (r: Result<Vec<u8>, String>)
    ensures
        match r {
            Ok(bytes) => {
                &&& shell_execute_bytes(record.deep_view()) == Some(bytes@)
                &&& shell_execute_record(bytes@) == Some(record.deep_view())
            },
            Err(_) => shell_execute_bytes(record.deep_view()).is_none(),
        },
{
    bincode::serialize(record).map_err(|e| e.to_string())
}

/// `bincode::deserialize` of the record of a request to run a shell
/// command. The outcome depends on the bytes alone.
#[verifier::external_body]
pub(crate) fn decode_shell_execute(bytes: &[u8]) -> (r: Result<(
    String,
    bool,
    u64,
    Vec<(String, String)>,
    Option<String>,
), String>)
    ensures
        match r {
            Ok(record) => shell_execute_record(bytes@) == Some(record.deep_view()),
            Err(_) => shell_execute_record(bytes@).is_none(),
        },
{
    bincode::deserialize(bytes).map_err(|e| e.to_string())
}

/// What `bincode::serialize` returns for the record of a chunk of shell
/// output: its bytes, or `None` where it fails.
pub uninterp spec fn shell_output_bytes(record: (u64, Seq<u8>, bool)) -> Option<Seq<u8>>;

/// What `bincode::deserialize` reads from `bytes` as the record of a chunk
/// of shell output, or `None` where it fails.
pub uninterp spec fn shell_output_record(bytes: Seq<u8>) -> Option<(u64, Seq<u8>, bool)>;

/// `bincode::serialize` on the record of a chunk of shell output. The
/// outcome depends on the record alone, and the bytes that it gives are
/// read back by `bincode::deserialize` as the same record.
#[verifier::external_body]
pub(crate) fn encode_shell_output(record: &(u64, &Vec<u8>, bool)) -> (r: Result<Vec<u8>, String>)
    ensures
        match r {
            Ok(bytes) => {
                &&& shell_output_bytes(record.deep_view()) == Some(bytes@)
                &&& shell_output_record(bytes@) == Some(record.deep_view())
            },
            Err(_) => shell_output_bytes(record.deep_view()).is_none(),
        },
{
    bincode::serialize(record).map_err(|e| e.to_string())
}

/// `bincode::deserialize` of the record of a chunk of shell output. The
/// outcome depends on the bytes alone.
#[verifier::external_body]
pub(crate) fn decode_shell_output(bytes: &[u8]) -> (r: Result<(u64, Vec<u8>, bool), String>)
    ensures
        match r {
            Ok(record) => shell_output_record(bytes@) == Some(record.deep_view()),
            Err(_) => shell_output_record(bytes@).is_none(),
        },
{
    bincode::deserialize(bytes).map_err(|e| e.to_string())
}

/// What `bincode::serialize` returns for the record of the exit status of a
/// shell command: its bytes, or `None` where it fails.
pub uninterp spec fn shell_exit_bytes(record: (i32, u64, Option<Seq<char>>)) -> Option<Seq<u8>>;

/// What `bincode::deserialize` reads from `bytes` as the record of the exit
/// status of a shell command, or `None` where it fails.
pub uninterp spec fn shell_exit_record(bytes: Seq<u8>) -> Option<(i32, u64, Option<Seq<char>>)>;

/// `bincode::serialize` on the record of the exit status of a shell
/// command. The outcome depends on the record alone, and the bytes that it
/// gives are read back by `bincode::deserialize` as the same record.
#[verifier::external_body]
pub(crate) fn encode_shell_exit(record: &(
    i32,
    u64,
    &Option<String>,
)) -> (r: Result<Vec<u8>, String>)
    ensures
        match r {
            Ok(bytes) => {
                &&& shell_exit_bytes(record.deep_view()) == Some(bytes@)
                &&& shell_exit_record(bytes@) == Some(record.deep_view())
            },
            Err(_) => shell_exit_bytes(record.deep_view()).is_none(),
        },
{
    bincode::serialize(record).map_err(|e| e.to_string())
}

/// `bincode::deserialize` of the record of the exit status of a shell
/// command. The outcome depends on the bytes alone.
#[verifier::external_body]
pub(crate) fn decode_shell_exit(bytes: &[u8]) -> (r: Result<(i32, u64, Option<String>), String>)
    ensures
        match r {
            Ok(record) => shell_exit_record(bytes@) == Some(record.deep_view()),
            Err(_) => shell_exit_record(bytes@).is_none(),
        },
{
    bincode::deserialize(bytes).map_err(|e| e.to_string())
}

/// The bytes of the record of a request to resize a terminal: the
/// request id in 8 bytes, the columns in 2, the rows in 2, each little
/// endian.
pub open spec fn shell_resize_bytes(record: (u64, u16, u16)) -> Option<Seq<u8>> {
    Some(
        spec_u64_to_le_bytes(record.0) + spec_u16_to_le_bytes(record.1) + spec_u16_to_le_bytes(
            record.2,
        ),
    )
}

/// The record of a request to resize a terminal that the first 12 bytes
/// hold; `None` for fewer bytes.
pub open spec fn shell_resize_record(bytes: Seq<u8>) -> Option<(u64, u16, u16)> {
    if bytes.len() < 12 {
        None
    } else {
        Some(
            (
                spec_u64_from_le_bytes(bytes.subrange(0, 8)),
                spec_u16_from_le_bytes(bytes.subrange(8, 10)),
                spec_u16_from_le_bytes(bytes.subrange(10, 12)),
            ),
        )
    }
}

/// `bincode::serialize` on the record of a request to resize a terminal:
/// it writes the three numbers at their fixed width, little endian, one
/// after the other, and does not fail.
#[verifier::external_body]
pub(crate) fn encode_shell_resize(record: &(u64, u16, u16)) -> (r: Result<Vec<u8>, String>)
    ensures
        match r {
            Ok(bytes) => shell_resize_bytes(*record) == Some(bytes@),
            Err(_) => false,
        },
{
    bincode::serialize(record).map_err(|e| e.to_string())
}

/// `bincode::deserialize` of the record of a request to resize a
/// terminal: it reads the three numbers from the first 12 bytes and
/// fails only where there are fewer.
#[verifier::external_body]
pub(crate) fn decode_shell_resize(bytes: &[u8]) -> (r: Result<(u64, u16, u16), String>)
    ensures
        match r {
            Ok(record) => shell_resize_record(bytes@) == Some(record),
            Err(_) => shell_resize_record(bytes@).is_none(),
        },
{
    bincode::deserialize(bytes).map_err(|e| e.to_string())
}

/// The bytes of a request to resize a terminal are 12, and they are read
/// back as the same record, whatever follows them.
pub proof fn lemma_shell_resize_roundtrip(record: (u64, u16, u16), rest: Seq<u8>)
    ensures
        shell_resize_bytes(record).unwrap().len() == 12,
        shell_resize_record(shell_resize_bytes(record).unwrap() + rest) == Some(record),
{
    lemma_auto_spec_u64_to_from_le_bytes();
    lemma_auto_spec_u16_to_from_le_bytes();
    let b = shell_resize_bytes(record).unwrap() + rest;
    assert(b.subrange(0, 8) =~= spec_u64_to_le_bytes(record.0));
    assert(b.subrange(8, 10) =~= spec_u16_to_le_bytes(record.1));
    assert(b.subrange(10, 12) =~= spec_u16_to_le_bytes(record.2));
}

/// What `bincode::serialize` returns for the record of a request for a
/// file: its bytes, or `None` where it fails.
pub uninterp spec fn file_request_bytes(record: (
    Seq<char>,
    u32,
    bool,
    Option<Seq<u8>>,
)) -> Option<Seq<u8>>;

/// What `bincode::deserialize` reads from `bytes` as the record of a
/// request for a file, or `None` where it fails.
pub uninterp spec fn file_request_record(bytes: Seq<u8>) -> Option<(
    Seq<char>,
    u32,
    bool,
    Option<Seq<u8>>,
)>;

/// `bincode::serialize` on the record of a request for a file. The outcome
/// depends on the record alone, and the bytes that it gives are read back
/// by `bincode::deserialize` as the same record.
#[verifier::external_body]
pub(crate) fn encode_file_request(record: &(
    &String,
    u32,
    bool,
    &Option<[u8; 32]>,
)) -> (r: Result<Vec<u8>, String>)
    ensures
        match r {
            Ok(bytes) => {
                &&& file_request_bytes(record.deep_view()) == Some(bytes@)
                &&& file_request_record(bytes@) == Some(record.deep_view())
            },
            Err(_) => file_request_bytes(record.deep_view()).is_none(),
        },
{
    bincode::serialize(record).map_err(|e| e.to_string())
}

/// `bincode::deserialize` of the record of a request for a file. The
/// outcome depends on the bytes alone.
#[verifier::external_body]
pub(crate) fn decode_file_request(bytes: &[u8]) -> (r: Result<(
    String,
    u32,
    bool,
    Option<[u8; 32]>,
), String>)
    ensures
        match r {
            Ok(record) => file_request_record(bytes@) == Some(record.deep_view()),
            Err(_) => file_request_record(bytes@).is_none(),
        },
{
    bincode::deserialize(bytes).map_err(|e| e.to_string())
}

/// What `bincode::serialize` returns for the record of the header of a file
/// transfer: its bytes, or `None` where it fails.
pub uninterp spec fn file_header_bytes(record: (
    Seq<char>,
    u64,
    u64,
    u32,
    bool,
    u64,
    u32,
)) -> Option<Seq<u8>>;

/// What `bincode::deserialize` reads from `bytes` as the record of the
/// header of a file transfer, or `None` where it fails.
pub uninterp spec fn file_header_record(bytes: Seq<u8>) -> Option<(
    Seq<char>,
    u64,
    u64,
    u32,
    bool,
    u64,
    u32,
)>;

/// `bincode::serialize` on the record of the header of a file transfer. The
/// outcome depends on the record alone, and the bytes that it gives are
/// read back by `bincode::deserialize` as the same record.
#[verifier::external_body]
pub(crate) fn encode_file_header(record: &(
    &String,
    u64,
    u64,
    u32,
    bool,
    u64,
    u32,
)) -> (r: Result<Vec<u8>, String>)
    ensures
        match r {
            Ok(bytes) => {
                &&& file_header_bytes(record.deep_view()) == Some(bytes@)
                &&& file_header_record(bytes@) == Some(record.deep_view())
            },
            Err(_) => file_header_bytes(record.deep_view()).is_none(),
        },
{
    bincode::serialize(record).map_err(|e| e.to_string())
}

/// `bincode::deserialize` of the record of the header of a file transfer.
/// The outcome depends on the bytes alone.
#[verifier::external_body]
pub(crate) fn decode_file_header(bytes: &[u8]) -> (r: Result<(
    String,
    u64,
    u64,
    u32,
    bool,
    u64,
    u32,
), String>)
    ensures
        match r {
            Ok(record) => file_header_record(bytes@) == Some(record.deep_view()),
            Err(_) => file_header_record(bytes@).is_none(),
        },
{
    bincode::deserialize(bytes).map_err(|e| e.to_string())
}

/// What `bincode::serialize` returns for the record of a chunk of a file:
/// its bytes, or `None` where it fails.
pub uninterp spec fn file_chunk_bytes(record: (u64, u64, Seq<u8>)) -> Option<Seq<u8>>;

/// What `bincode::deserialize` reads from `bytes` as the record of a chunk
/// of a file, or `None` where it fails.
pub uninterp spec fn file_chunk_record(bytes: Seq<u8>) -> Option<(u64, u64, Seq<u8>)>;

/// `bincode::serialize` on the record of a chunk of a file. The outcome
/// depends on the record alone, and the bytes that it gives are read back
/// by `bincode::deserialize` as the same record.
#[verifier::external_body]
pub(crate) fn encode_file_chunk(record: &(u64, u64, &Vec<u8>)) -> (r: Result<Vec<u8>, String>)
    ensures
        match r {
            Ok(bytes) => {
                &&& file_chunk_bytes(record.deep_view()) == Some(bytes@)
                &&& file_chunk_record(bytes@) == Some(record.deep_view())
            },
            Err(_) => file_chunk_bytes(record.deep_view()).is_none(),
        },
{
    bincode::serialize(record).map_err(|e| e.to_string())
}

/// `bincode::deserialize` of the record of a chunk of a file. The outcome
/// depends on the bytes alone.
#[verifier::external_body]
pub(crate) fn decode_file_chunk(bytes: &[u8]) -> (r: Result<(u64, u64, Vec<u8>), String>)
    ensures
        match r {
            Ok(record) => file_chunk_record(bytes@) == Some(record.deep_view()),
            Err(_) => file_chunk_record(bytes@).is_none(),
        },
{
    bincode::deserialize(bytes).map_err(|e| e.to_string())
}

/// What `bincode::serialize` returns for the record of the metadata of a
/// file: its bytes, or `None` where it fails.
pub uninterp spec fn file_metadata_bytes(record: (
    Seq<char>,
    Seq<char>,
    u64,
    u64,
    bool,
    Option<Seq<u8>>,
)) -> Option<Seq<u8>>;

/// What `bincode::deserialize` reads from `bytes` as the record of the
/// metadata of a file, or `None` where it fails.
pub uninterp spec fn file_metadata_record(bytes: Seq<u8>) -> Option<(
    Seq<char>,
    Seq<char>,
    u64,
    u64,
    bool,
    Option<Seq<u8>>,
)>;

/// `bincode::serialize` on the record of the metadata of a file. The
/// outcome depends on the record alone, and the bytes that it gives are
/// read back by `bincode::deserialize` as the same record.
#[verifier::external_body]
pub(crate) fn encode_file_metadata(record: &(
    &String,
    &String,
    u64,
    u64,
    bool,
    &Option<[u8; 32]>,
)) -> (r: Result<Vec<u8>, String>)
    ensures
        match r {
            Ok(bytes) => {
                &&& file_metadata_bytes(record.deep_view()) == Some(bytes@)
                &&& file_metadata_record(bytes@) == Some(record.deep_view())
            },
            Err(_) => file_metadata_bytes(record.deep_view()).is_none(),
        },
{
    bincode::serialize(record).map_err(|e| e.to_string())
}

/// `bincode::deserialize` of the record of the metadata of a file. The
/// outcome depends on the bytes alone.
#[verifier::external_body]
pub(crate) fn decode_file_metadata(bytes: &[u8]) -> (r: Result<(
    String,
    String,
    u64,
    u64,
    bool,
    Option<[u8; 32]>,
), String>)
    ensures
        match r {
            Ok(record) => file_metadata_record(bytes@) == Some(record.deep_view()),
            Err(_) => file_metadata_record(bytes@).is_none(),
        },
{
    bincode::deserialize(bytes).map_err(|e| e.to_string())
}

/// The bytes of the record of the hash that closes a file transfer: the
/// 32 bytes of the hash, then the numbers of bytes and of chunks in 8
/// bytes each, little endian.
pub open spec fn file_hash_bytes(record: (Seq<u8>, u64, u64)) -> Option<Seq<u8>> {
    Some(record.0 + spec_u64_to_le_bytes(record.1) + spec_u64_to_le_bytes(record.2))
}

/// The record of the hash that closes a file transfer that the first 48
/// bytes hold; `None` for fewer bytes.
pub open spec fn file_hash_record(bytes: Seq<u8>) -> Option<(Seq<u8>, u64, u64)> {
    if bytes.len() < 48 {
        None
    } else {
        Some(
            (
                bytes.subrange(0, 32),
                spec_u64_from_le_bytes(bytes.subrange(32, 40)),
                spec_u64_from_le_bytes(bytes.subrange(40, 48)),
            ),
        )
    }
}

/// `bincode::serialize` on the record of the hash that closes a file
/// transfer: it writes the 32 bytes of the hash without a length, then
/// the two numbers at their fixed width, little endian, and does not
/// fail.
#[verifier::external_body]
pub(crate) fn encode_file_hash(record: &(&[u8; 32], u64, u64)) -> (r: Result<Vec<u8>, String>)
    ensures
        match r {
            Ok(bytes) => file_hash_bytes(record.deep_view()) == Some(bytes@),
            Err(_) => false,
        },
{
    bincode::serialize(record).map_err(|e| e.to_string())
}

/// `bincode::deserialize` of the record of the hash that closes a file
/// transfer: it reads the hash and the two numbers from the first 48
/// bytes and fails only where there are fewer.
#[verifier::external_body]
pub(crate) fn decode_file_hash(bytes: &[u8]) -> (r: Result<([u8; 32], u64, u64), String>)
    ensures
        match r {
            Ok(record) => file_hash_record(bytes@) == Some(record.deep_view()),
            Err(_) => file_hash_record(bytes@).is_none(),
        },
{
    bincode::deserialize(bytes).map_err(|e| e.to_string())
}

/// The bytes of the hash that closes a file transfer are 48, and they are
/// read back as the same record, whatever follows them.
pub proof fn lemma_file_hash_roundtrip(record: (Seq<u8>, u64, u64), rest: Seq<u8>)
    requires
        record.0.len() == 32,
    ensures
        file_hash_bytes(record).unwrap().len() == 48,
        file_hash_record(file_hash_bytes(record).unwrap() + rest) == Some(record),
{
    lemma_auto_spec_u64_to_from_le_bytes();
    let b = file_hash_bytes(record).unwrap() + rest;
    assert(b.subrange(0, 32) =~= record.0);
    assert(b.subrange(32, 40) =~= spec_u64_to_le_bytes(record.1));
    assert(b.subrange(40, 48) =~= spec_u64_to_le_bytes(record.2));
}

/// What `bincode::serialize` returns for the record of a request for a
/// delta transfer: its bytes, or `None` where it fails.
pub uninterp spec fn delta_sync_bytes(record: (
    Seq<char>,
    u32,
    Seq<(u64, u64, u32, Seq<u8>)>,
)) -> Option<Seq<u8>>;

/// What `bincode::deserialize` reads from `bytes` as the record of a
/// request for a delta transfer, or `None` where it fails.
pub uninterp spec fn delta_sync_record(bytes: Seq<u8>) -> Option<(
    Seq<char>,
    u32,
    Seq<(u64, u64, u32, Seq<u8>)>,
)>;

/// `bincode::serialize` on the record of a request for a delta transfer.
/// The outcome depends on the record alone, and the bytes that it gives are
/// read back by `bincode::deserialize` as the same record.
#[verifier::external_body]
pub(crate) fn encode_delta_sync(record: &(
    &String,
    u32,
    &Vec<(u64, u64, u32, [u8; 32])>,
)) -> (r: Result<Vec<u8>, String>)
    ensures
        match r {
            Ok(bytes) => {
                &&& delta_sync_bytes(record.deep_view()) == Some(bytes@)
                &&& delta_sync_record(bytes@) == Some(record.deep_view())
            },
            Err(_) => delta_sync_bytes(record.deep_view()).is_none(),
        },
{
    bincode::serialize(record).map_err(|e| e.to_string())
}

/// `bincode::deserialize` of the record of a request for a delta transfer.
/// The outcome depends on the bytes alone.
#[verifier::external_body]
pub(crate) fn decode_delta_sync(bytes: &[u8]) -> (r: Result<(
    String,
    u32,
    Vec<(u64, u64, u32, [u8; 32])>,
), String>)
    ensures
        match r {
            Ok(record) => delta_sync_record(bytes@) == Some(record.deep_view()),
            Err(_) => delta_sync_record(bytes@).is_none(),
        },
{
    bincode::deserialize(bytes).map_err(|e| e.to_string())
}

/// What `bincode::serialize` returns for the record of a request to start a
/// screen session: its bytes, or `None` where it fails.
pub uninterp spec fn screen_start_bytes(record: (
    u8,
    u8,
    Option<(u32, u32, u32, u32)>,
    u32,
    bool,
    u8,
)) -> Option<Seq<u8>>;

/// What `bincode::deserialize` reads from `bytes` as the record of a
/// request to start a screen session, or `None` where it fails.
pub uninterp spec fn screen_start_record(bytes: Seq<u8>) -> Option<(
    u8,
    u8,
    Option<(u32, u32, u32, u32)>,
    u32,
    bool,
    u8,
)>;

/// `bincode::serialize` on the record of a request to start a screen
/// session. The outcome depends on the record alone, and the bytes that it
/// gives are read back by `bincode::deserialize` as the same record.
#[verifier::external_body]
pub(crate) fn encode_screen_start(record: &(
    u8,
    u8,
    Option<(u32, u32, u32, u32)>,
    u32,
    bool,
    u8,
)) -> (r: Result<Vec<u8>, String>)
    ensures
        match r {
            Ok(bytes) => {
                &&& screen_start_bytes(record.deep_view()) == Some(bytes@)
                &&& screen_start_record(bytes@) == Some(record.deep_view())
            },
            Err(_) => screen_start_bytes(record.deep_view()).is_none(),
        },
{
    bincode::serialize(record).map_err(|e| e.to_string())
}

/// `bincode::deserialize` of the record of a request to start a screen
/// session. The outcome depends on the bytes alone.
#[verifier::external_body]
pub(crate) fn decode_screen_start(bytes: &[u8]) -> (r: Result<(
    u8,
    u8,
    Option<(u32, u32, u32, u32)>,
    u32,
    bool,
    u8,
), String>)
    ensures
        match r {
            Ok(record) => screen_start_record(bytes@) == Some(record.deep_view()),
            Err(_) => screen_start_record(bytes@).is_none(),
        },
{
    bincode::deserialize(bytes).map_err(|e| e.to_string())
}

/// What `bincode::serialize` returns for the record of the settings of a
/// screen session: its bytes, or `None` where it fails.
pub uninterp spec fn screen_config_bytes(record: (
    u32,
    u32,
    u8,
    u8,
    u32,
    Seq<char>,
)) -> Option<Seq<u8>>;

/// What `bincode::deserialize` reads from `bytes` as the record of the
/// settings of a screen session, or `None` where it fails.
pub uninterp spec fn screen_config_record(bytes: Seq<u8>) -> Option<(
    u32,
    u32,
    u8,
    u8,
    u32,
    Seq<char>,
)>;

/// `bincode::serialize` on the record of the settings of a screen session.
/// The outcome depends on the record alone, and the bytes that it gives are
/// read back by `bincode::deserialize` as the same record.
#[verifier::external_body]
pub(crate) fn encode_screen_config(record: &(
    u32,
    u32,
    u8,
    u8,
    u32,
    &String,
)) -> (r: Result<Vec<u8>, String>)
    ensures
        match r {
            Ok(bytes) => {
                &&& screen_config_bytes(record.deep_view()) == Some(bytes@)
                &&& screen_config_record(bytes@) == Some(record.deep_view())
            },
            Err(_) => screen_config_bytes(record.deep_view()).is_none(),
        },
{
    bincode::serialize(record).map_err(|e| e.to_string())
}

/// `bincode::deserialize` of the record of the settings of a screen
/// session. The outcome depends on the bytes alone.
#[verifier::external_body]
pub(crate) fn decode_screen_config(bytes: &[u8]) -> (r: Result<(
    u32,
    u32,
    u8,
    u8,
    u32,
    String,
), String>)
    ensures
        match r {
            Ok(record) => screen_config_record(bytes@) == Some(record.deep_view()),
            Err(_) => screen_config_record(bytes@).is_none(),
        },
{
    bincode::deserialize(bytes).map_err(|e| e.to_string())
}

/// What `bincode::serialize` returns for the record of a screen frame: its
/// bytes, or `None` where it fails.
pub uninterp spec fn screen_frame_bytes(record: (
    u64,
    u64,
    u32,
    u32,
    u32,
    Seq<u8>,
    Option<(i32, i32, bool)>,
    bool,
)) -> Option<Seq<u8>>;

/// What `bincode::deserialize` reads from `bytes` as the record of a screen
/// frame, or `None` where it fails.
pub uninterp spec fn screen_frame_record(bytes: Seq<u8>) -> Option<(
    u64,
    u64,
    u32,
    u32,
    u32,
    Seq<u8>,
    Option<(i32, i32, bool)>,
    bool,
)>;

/// `bincode::serialize` on the record of a screen frame. The outcome
/// depends on the record alone, and the bytes that it gives are read back
/// by `bincode::deserialize` as the same record.
#[verifier::external_body]
pub(crate) fn encode_screen_frame(record: &(
    u64,
    u64,
    u32,
    u32,
    u32,
    &Vec<u8>,
    Option<(i32, i32, bool)>,
    bool,
)) -> (r: Result<Vec<u8>, String>)
    ensures
        match r {
            Ok(bytes) => {
                &&& screen_frame_bytes(record.deep_view()) == Some(bytes@)
                &&& screen_frame_record(bytes@) == Some(record.deep_view())
            },
            Err(_) => screen_frame_bytes(record.deep_view()).is_none(),
        },
{
    bincode::serialize(record).map_err(|e| e.to_string())
}

/// `bincode::deserialize` of the record of a screen frame. The outcome
/// depends on the bytes alone.
#[verifier::external_body]
pub(crate) fn decode_screen_frame(bytes: &[u8]) -> (r: Result<(
    u64,
    u64,
    u32,
    u32,
    u32,
    Vec<u8>,
    Option<(i32, i32, bool)>,
    bool,
), String>)
    ensures
        match r {
            Ok(record) => screen_frame_record(bytes@) == Some(record.deep_view()),
            Err(_) => screen_frame_record(bytes@).is_none(),
        },
{
    bincode::deserialize(bytes).map_err(|e| e.to_string())
}

/// A signed number as the unsigned number of the same 32 bits.
pub open spec fn bits_of_i32(x: i32) -> u32 {
    if x >= 0 {
        x as u32
    } else {
        (x + 0x1_0000_0000) as u32
    }
}

/// The signed number of these 32 bits.
pub open spec fn i32_of_bits(bits: u32) -> i32 {
    if bits < 0x8000_0000 {
        bits as i32
    } else {
        (bits - 0x1_0000_0000) as i32
    }
}

/// A signed number as the unsigned number of the same 16 bits.
pub open spec fn bits_of_i16(x: i16) -> u16 {
    if x >= 0 {
        x as u16
    } else {
        (x + 0x1_0000) as u16
    }
}

/// The signed number of these 16 bits.
pub open spec fn i16_of_bits(bits: u16) -> i16 {
    if bits < 0x8000 {
        bits as i16
    } else {
        (bits - 0x1_0000) as i16
    }
}

/// The bytes of the record of a mouse event: x and y in 4 bytes each,
/// the numbers of kind and button in 4 bytes each, the scroll delta in
/// 2, each little endian, the signed ones in two's complement.
pub open spec fn mouse_event_bytes(record: (i32, i32, u32, u32, i16)) -> Option<Seq<u8>> {
    Some(
        spec_u32_to_le_bytes(bits_of_i32(record.0)) + spec_u32_to_le_bytes(bits_of_i32(record.1))
            + spec_u32_to_le_bytes(record.2) + spec_u32_to_le_bytes(record.3)
            + spec_u16_to_le_bytes(bits_of_i16(record.4)),
    )
}

/// The record of a mouse event that the first 18 bytes hold; `None` for
/// fewer bytes.
pub open spec fn mouse_event_record(bytes: Seq<u8>) -> Option<(i32, i32, u32, u32, i16)> {
    if bytes.len() < 18 {
        None
    } else {
        Some(
            (
                i32_of_bits(spec_u32_from_le_bytes(bytes.subrange(0, 4))),
                i32_of_bits(spec_u32_from_le_bytes(bytes.subrange(4, 8))),
                spec_u32_from_le_bytes(bytes.subrange(8, 12)),
                spec_u32_from_le_bytes(bytes.subrange(12, 16)),
                i16_of_bits(spec_u16_from_le_bytes(bytes.subrange(16, 18))),
            ),
        )
    }
}

/// `bincode::serialize` on the record of a mouse event: it writes the
/// five numbers at their fixed width, little endian, one after the
/// other, and does not fail.
#[verifier::external_body]
pub(crate) fn encode_mouse_event(record: &(i32, i32, u32, u32, i16)) -> (r: Result<
    Vec<u8>,
    String,
>)
    ensures
        match r {
            Ok(bytes) => mouse_event_bytes(*record) == Some(bytes@),
            Err(_) => false,
        },
{
    bincode::serialize(record).map_err(|e| e.to_string())
}

/// `bincode::deserialize` of the record of a mouse event: it reads the
/// five numbers from the first 18 bytes and fails only where there are
/// fewer.
#[verifier::external_body]
pub(crate) fn decode_mouse_event(bytes: &[u8]) -> (r: Result<(i32, i32, u32, u32, i16), String>)
    ensures
        match r {
            Ok(record) => mouse_event_record(bytes@) == Some(record),
            Err(_) => mouse_event_record(bytes@).is_none(),
        },
{
    bincode::deserialize(bytes).map_err(|e| e.to_string())
}

/// The bytes of a mouse event are 18, and they are read back as the same
/// record, whatever follows them.
pub proof fn lemma_mouse_event_roundtrip(record: (i32, i32, u32, u32, i16), rest: Seq<u8>)
    ensures
        mouse_event_bytes(record).unwrap().len() == 18,
        mouse_event_record(mouse_event_bytes(record).unwrap() + rest) == Some(record),
{
    lemma_auto_spec_u32_to_from_le_bytes();
    lemma_auto_spec_u16_to_from_le_bytes();
    let b = mouse_event_bytes(record).unwrap() + rest;
    assert(b.subrange(0, 4) =~= spec_u32_to_le_bytes(bits_of_i32(record.0)));
    assert(b.subrange(4, 8) =~= spec_u32_to_le_bytes(bits_of_i32(record.1)));
    assert(b.subrange(8, 12) =~= spec_u32_to_le_bytes(record.2));
    assert(b.subrange(12, 16) =~= spec_u32_to_le_bytes(record.3));
    assert(b.subrange(16, 18) =~= spec_u16_to_le_bytes(bits_of_i16(record.4)));
}

/// The bytes of the record of a keyboard event: the virtual key and the
/// scan code in 2 bytes each, the number of the action in 4, each little
/// endian, and the modifiers in 1.
pub open spec fn key_event_bytes(record: (u16, u16, u32, u8)) -> Option<Seq<u8>> {
    Some(
        spec_u16_to_le_bytes(record.0) + spec_u16_to_le_bytes(record.1) + spec_u32_to_le_bytes(
            record.2,
        ) + seq![record.3],
    )
}

/// The record of a keyboard event that the first 9 bytes hold; `None`
/// for fewer bytes.
pub open spec fn key_event_record(bytes: Seq<u8>) -> Option<(u16, u16, u32, u8)> {
    if bytes.len() < 9 {
        None
    } else {
        Some(
            (
                spec_u16_from_le_bytes(bytes.subrange(0, 2)),
                spec_u16_from_le_bytes(bytes.subrange(2, 4)),
                spec_u32_from_le_bytes(bytes.subrange(4, 8)),
                bytes[8],
            ),
        )
    }
}

/// `bincode::serialize` on the record of a keyboard event: it writes the
/// four numbers at their fixed width, little endian, one after the
/// other, and does not fail.
#[verifier::external_body]
pub(crate) fn encode_key_event(record: &(u16, u16, u32, u8)) -> (r: Result<Vec<u8>, String>)
    ensures
        match r {
            Ok(bytes) => key_event_bytes(*record) == Some(bytes@),
            Err(_) => false,
        },
{
    bincode::serialize(record).map_err(|e| e.to_string())
}

/// `bincode::deserialize` of the record of a keyboard event: it reads
/// the four numbers from the first 9 bytes and fails only where there
/// are fewer.
#[verifier::external_body]
pub(crate) fn decode_key_event(bytes: &[u8]) -> (r: Result<(u16, u16, u32, u8), String>)
    ensures
        match r {
            Ok(record) => key_event_record(bytes@) == Some(record),
            Err(_) => key_event_record(bytes@).is_none(),
        },
{
    bincode::deserialize(bytes).map_err(|e| e.to_string())
}

/// The bytes of a keyboard event are 9, and they are read back as the
/// same record, whatever follows them.
pub proof fn lemma_key_event_roundtrip(record: (u16, u16, u32, u8), rest: Seq<u8>)
    ensures
        key_event_bytes(record).unwrap().len() == 9,
        key_event_record(key_event_bytes(record).unwrap() + rest) == Some(record),
{
    lemma_auto_spec_u32_to_from_le_bytes();
    lemma_auto_spec_u16_to_from_le_bytes();
    let b = key_event_bytes(record).unwrap() + rest;
    assert(b.subrange(0, 2) =~= spec_u16_to_le_bytes(record.0));
    assert(b.subrange(2, 4) =~= spec_u16_to_le_bytes(record.1));
    assert(b.subrange(4, 8) =~= spec_u32_to_le_bytes(record.2));
}

} // verus!
