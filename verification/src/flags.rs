//! Protocol flags: a 64-bit bitmask carried in every packet header.

use vstd::prelude::*;

verus! {

/// Payload is compressed.
pub const FLAG_COMPRESSED: u64 = 0x01;

/// Payload is encrypted (reserved).
pub const FLAG_ENCRYPTED: u64 = 0x02;

/// Final fragment of a multi-part message.
pub const FLAG_FINAL_FRAGMENT: u64 = 0x04;

/// The sender asks for an acknowledgement.
pub const FLAG_ACK_REQUESTED: u64 = 0x08;

/// The packet is one chunk of a stream.
pub const FLAG_STREAMING: u64 = 0x10;

/// Every bit that names an observable flag.
pub const KNOWN_FLAG_BITS: u64 = 0x1F;

/// A set of observable protocol flags.
///
/// Only the bits of [`KNOWN_FLAG_BITS`] can be held: every way of making a
/// value drops the others, so the reserved top bit of the wire field can
/// never be set through this type.
#[derive(Debug, Clone, Copy, PartialEq, Eq, Hash)]
pub struct ProtocolFlags {
    bits: u64,
}

impl View for ProtocolFlags {
    type V = u64;

    /// The bitmask of the flags that are set.
    closed spec fn view(&self) -> u64 {
        self.bits & KNOWN_FLAG_BITS
    }
}

impl ProtocolFlags {
    /// The flag set with the given bitmask, unknown bits dropped.
    pub closed spec fn of_bits(bits: u64) -> ProtocolFlags {
        ProtocolFlags { bits: bits & KNOWN_FLAG_BITS }
    }

    /// Whether every flag of `other` is set in `self`.
    pub open spec fn has(self, other: ProtocolFlags) -> bool {
        self@ & other@ == other@
    }

    /// No flag set.
    pub fn none() -> (r: ProtocolFlags)
        ensures
            r@ == 0,
            r == ProtocolFlags::of_bits(0),
    {
        assert(0u64 & 0x1F == 0) by (bit_vector);
        ProtocolFlags { bits: 0 }
    }

    /// The `COMPRESSED` flag alone.
    pub fn compressed() -> (r: ProtocolFlags)
        ensures
            r@ == FLAG_COMPRESSED,
            r == ProtocolFlags::of_bits(FLAG_COMPRESSED),
    {
        assert(0x01u64 & 0x1F == 0x01) by (bit_vector);
        ProtocolFlags { bits: FLAG_COMPRESSED }
    }

    /// The `ENCRYPTED` flag alone.
    pub fn encrypted() -> (r: ProtocolFlags)
        ensures
            r@ == FLAG_ENCRYPTED,
            r == ProtocolFlags::of_bits(FLAG_ENCRYPTED),
    {
        assert(0x02u64 & 0x1F == 0x02) by (bit_vector);
        ProtocolFlags { bits: FLAG_ENCRYPTED }
    }

    /// The `FINAL_FRAGMENT` flag alone.
    pub fn final_fragment() -> (r: ProtocolFlags)
        ensures
            r@ == FLAG_FINAL_FRAGMENT,
            r == ProtocolFlags::of_bits(FLAG_FINAL_FRAGMENT),
    {
        assert(0x04u64 & 0x1F == 0x04) by (bit_vector);
        ProtocolFlags { bits: FLAG_FINAL_FRAGMENT }
    }

    /// The `ACK_REQUESTED` flag alone.
    pub fn ack_requested() -> (r: ProtocolFlags)
        ensures
            r@ == FLAG_ACK_REQUESTED,
            r == ProtocolFlags::of_bits(FLAG_ACK_REQUESTED),
    {
        assert(0x08u64 & 0x1F == 0x08) by (bit_vector);
        ProtocolFlags { bits: FLAG_ACK_REQUESTED }
    }

    /// The `STREAMING` flag alone.
    pub fn streaming() -> (r: ProtocolFlags)
        ensures
            r@ == FLAG_STREAMING,
            r == ProtocolFlags::of_bits(FLAG_STREAMING),
    {
        assert(0x10u64 & 0x1F == 0x10) by (bit_vector);
        ProtocolFlags { bits: FLAG_STREAMING }
    }

    /// The flags named by `bits`; bits that name no flag are dropped.
    pub fn from_bits_truncate(bits: u64) -> (r: ProtocolFlags)
        ensures
            r@ == bits & KNOWN_FLAG_BITS,
            r == ProtocolFlags::of_bits(bits),
    {
        assert((bits & 0x1F) & 0x1F == bits & 0x1F) by (bit_vector);
        ProtocolFlags { bits: bits & KNOWN_FLAG_BITS }
    }

    /// The flags named by `value`; bits that name no flag are dropped.
    pub fn from(value: u64) -> (r: ProtocolFlags)
        ensures
            r@ == value & KNOWN_FLAG_BITS,
            r == ProtocolFlags::of_bits(value),
    {
        ProtocolFlags::from_bits_truncate(value)
    }

    /// The bitmask of the flags that are set.
    pub fn bits(&self) -> (r: u64)
        ensures
            r == self@,
            r & !KNOWN_FLAG_BITS == 0,
    {
        let b = self.bits;
        assert((b & 0x1F) & !0x1Fu64 == 0) by (bit_vector);
        b & KNOWN_FLAG_BITS
    }

    /// Whether every flag of `other` is set in `self`.
    pub fn contains(&self, other: ProtocolFlags) -> (r: bool)
        ensures
            r == self.has(other),
    {
        let a = self.bits & KNOWN_FLAG_BITS;
        let b = other.bits & KNOWN_FLAG_BITS;
        a & b == b
    }

    /// Whether no flag is set.
    pub fn is_empty(&self) -> (r: bool)
        ensures
            r == (self@ == 0),
    {
        self.bits & KNOWN_FLAG_BITS == 0
    }

    /// The flags set in `self` or in `other`.
    pub fn union(self, other: ProtocolFlags) -> (r: ProtocolFlags)
        ensures
            r@ == self@ | other@,
            r == ProtocolFlags::of_bits(self@ | other@),
    {
        let x = self.bits;
        let y = other.bits;
        let a = x & KNOWN_FLAG_BITS;
        let b = y & KNOWN_FLAG_BITS;
        assert((((x & 0x1F) | (y & 0x1F)) & 0x1F) & 0x1F == (x & 0x1F) | (y & 0x1F))
            by (bit_vector);
        ProtocolFlags { bits: (a | b) & KNOWN_FLAG_BITS }
    }
}

impl Default for ProtocolFlags {
    fn default() -> (r: ProtocolFlags)
        ensures
            r@ == 0,
    {
        ProtocolFlags::none()
    }
}

impl vstd::std_specs::ops::BitOrSpecImpl for ProtocolFlags {
    open spec fn obeys_bitor_spec() -> bool {
        true
    }

    open spec fn bitor_req(self, rhs: ProtocolFlags) -> bool {
        true
    }

    open spec fn bitor_spec(self, rhs: ProtocolFlags) -> ProtocolFlags {
        ProtocolFlags::of_bits(self@ | rhs@)
    }
}

impl std::ops::BitOr for ProtocolFlags {
    type Output = ProtocolFlags;

    fn bitor(self, rhs: ProtocolFlags) -> (r: ProtocolFlags) {
        self.union(rhs)
    }
}

/// The flag sets of the named bits show these bits.
pub proof fn lemma_named_flags()
    ensures
        ProtocolFlags::of_bits(0)@ == 0,
        ProtocolFlags::of_bits(FLAG_COMPRESSED)@ == FLAG_COMPRESSED,
        ProtocolFlags::of_bits(FLAG_ENCRYPTED)@ == FLAG_ENCRYPTED,
        ProtocolFlags::of_bits(FLAG_FINAL_FRAGMENT)@ == FLAG_FINAL_FRAGMENT,
        ProtocolFlags::of_bits(FLAG_ACK_REQUESTED)@ == FLAG_ACK_REQUESTED,
        ProtocolFlags::of_bits(FLAG_STREAMING)@ == FLAG_STREAMING,
{
    assert((0u64 & 0x1F) & 0x1F == 0) by (bit_vector);
    assert((0x01u64 & 0x1F) & 0x1F == 0x01) by (bit_vector);
    assert((0x02u64 & 0x1F) & 0x1F == 0x02) by (bit_vector);
    assert((0x04u64 & 0x1F) & 0x1F == 0x04) by (bit_vector);
    assert((0x08u64 & 0x1F) & 0x1F == 0x08) by (bit_vector);
    assert((0x10u64 & 0x1F) & 0x1F == 0x10) by (bit_vector);
}

/// A flag set made from a bitmask shows exactly the known bits of it.
pub proof fn lemma_of_bits_view(bits: u64)
    ensures
        ProtocolFlags::of_bits(bits)@ == bits & KNOWN_FLAG_BITS,
{
    assert((bits & 0x1F) & 0x1F == bits & 0x1F) by (bit_vector);
}

/// Reading the bits of a flag set and making a set from them gives the
/// same flags back.
pub proof fn lemma_flags_roundtrip(f: ProtocolFlags)
    ensures
        ProtocolFlags::of_bits(f@)@ == f@,
{
    let b = f.bits;
    assert(((b & 0x1F) & 0x1F) & 0x1F == b & 0x1F) by (bit_vector);
}

} // verus!
