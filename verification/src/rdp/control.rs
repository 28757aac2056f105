//! The control stream of a screen session.
//!
//! The controller connects a reliable stream to the agent and writes the
//! port it receives datagrams on as 2 little-endian bytes; the agent
//! answers with the port it sends from. After that the controller
//! forwards input events on the same stream, each framed as
//! `tag (1 byte) | length (2 bytes, little-endian) | payload`.

use vstd::prelude::*;
use vstd::bytes::{
    lemma_auto_spec_u16_to_from_le_bytes, spec_u16_from_le_bytes, spec_u16_to_le_bytes,
    u16_from_le_bytes, u16_to_le_bytes,
};

verus! {

/// The tag of a mouse event.
pub const TAG_MOUSE: u8 = 0;

/// The tag of a keyboard event.
pub const TAG_KEY: u8 = 1;

/// Size of the header of an input frame: tag and length.
pub const INPUT_HEADER_SIZE: usize = 3;

/// What the payload of an input frame is.
#[derive(Debug, Clone, Copy, PartialEq, Eq, Structural)]
pub enum InputKind {
    /// A mouse event.
    Mouse,
    /// A keyboard event.
    Key,
    /// A tag that names no kind of event; the frame is skipped.
    Unknown(u8),
}

impl InputKind {
    /// The kind that a tag selects.
    pub open spec fn of_tag(tag: u8) -> InputKind {
        if tag == 0 {
            InputKind::Mouse
        } else if tag == 1 {
            InputKind::Key
        } else {
            InputKind::Unknown(tag)
        }
    }

    /// The kind that a tag selects: 0 a mouse event, 1 a keyboard event.
    pub fn from_tag(tag: u8) -> (r: InputKind)
        ensures
            r == InputKind::of_tag(tag),
    {
        if tag == 0 {
            InputKind::Mouse
        } else if tag == 1 {
            InputKind::Key
        } else {
            InputKind::Unknown(tag)
        }
    }
}

/// The bytes of an input frame.
pub open spec fn input_frame(tag: u8, payload: Seq<u8>) -> Seq<u8> {
    seq![tag] + spec_u16_to_le_bytes(payload.len() as u16) + payload
}

/// The frame of an input event: tag, length of the payload, payload.
pub fn frame_input(tag: u8, payload: &[u8]) -> (r: Vec<u8>)
    requires
        payload@.len() <= u16::MAX,
    ensures
        r@ == input_frame(tag, payload@),
        r@.len() == 3 + payload@.len(),
{
    proof {
        lemma_auto_spec_u16_to_from_le_bytes();
    }
    let mut out: Vec<u8> = Vec::new();
    out.push(tag);
    let len = u16_to_le_bytes(payload.len() as u16);
    out.extend_from_slice(len.as_slice());
    out.extend_from_slice(payload);
    assert(out@ =~= input_frame(tag, payload@));
    out
}

/// Reads the header of an input frame: what the payload is and how many
/// bytes it has.
pub fn read_input_header(header: &[u8; 3]) -> (r: (InputKind, usize))
    ensures
        r.0 == InputKind::of_tag(header@[0]),
        r.1 == spec_u16_from_le_bytes(header@.subrange(1, 3)),
{
    let len = u16_from_le_bytes(vstd::slice::slice_subrange(header.as_slice(), 1, 3));
    (InputKind::from_tag(header[0]), len as usize)
}

/// The two bytes that announce a datagram port.
pub fn encode_port(port: u16) -> (r: Vec<u8>)
    ensures
        r@ == spec_u16_to_le_bytes(port),
        r@.len() == 2,
{
    proof {
        lemma_auto_spec_u16_to_from_le_bytes();
    }
    u16_to_le_bytes(port)
}

/// The datagram port that the peer announced; `None` when fewer than two
/// bytes came.
pub fn decode_port(bytes: &[u8]) -> (r: Option<u16>)
    ensures
        match r {
            Some(p) => bytes@.len() >= 2 && p == spec_u16_from_le_bytes(bytes@.subrange(0, 2)),
            None => bytes@.len() < 2,
        },
{
    if bytes.len() < 2 {
        return None;
    }
    Some(u16_from_le_bytes(vstd::slice::slice_subrange(bytes, 0, 2)))
}

/// The header of an input frame reads back as the tag's kind and the
/// length of the payload.
pub proof fn lemma_input_frame_roundtrip(tag: u8, payload: Seq<u8>)
    requires
        payload.len() <= u16::MAX,
    ensures
        input_frame(tag, payload).len() == 3 + payload.len(),
        input_frame(tag, payload)[0] == tag,
        spec_u16_from_le_bytes(input_frame(tag, payload).subrange(1, 3)) == payload.len(),
        input_frame(tag, payload).skip(3) == payload,
{
    lemma_auto_spec_u16_to_from_le_bytes();
    let f = input_frame(tag, payload);
    assert(f.subrange(1, 3) =~= spec_u16_to_le_bytes(payload.len() as u16));
    assert(f.skip(3) =~= payload);
}

/// A port reads back from its own two bytes.
pub proof fn lemma_port_roundtrip(port: u16, rest: Seq<u8>)
    ensures
        spec_u16_from_le_bytes((spec_u16_to_le_bytes(port) + rest).subrange(0, 2)) == port,
{
    lemma_auto_spec_u16_to_from_le_bytes();
    assert((spec_u16_to_le_bytes(port) + rest).subrange(0, 2) =~= spec_u16_to_le_bytes(port));
}

} // verus!
