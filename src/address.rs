use vstd::prelude::*;

verus! {

/// A position in a block-compressed stream.
///
/// The upper 48 bits hold the compressed offset of a block, the lower 16 bits
/// the offset inside the decompressed block. Addresses compare by the whole
/// 64-bit value.
#[derive(Clone, Copy, Debug, PartialEq, Eq, Structural, PartialOrd, Ord, Hash, Default)]
pub struct Address {
    pub value: u64,
}

/// The largest compressed block offset that fits in an address.
pub const MAX_COMPRESSED_OFFSET: u64 = 0xffff_ffff_ffff;

impl Address {
    /// Wraps a raw 64-bit address.
    pub fn new(value: u64) -> (r: Address)
        ensures
            r.value == value,
    {
        Address { value }
    }

    /// The smallest address.
    pub fn minimum() -> (r: Address)
        ensures
            r.value == 0,
    {
        Address { value: 0 }
    }

    /// The largest address.
    pub fn maximum() -> (r: Address)
        ensures
            r.value == u64::MAX,
    {
        Address { value: u64::MAX }
    }

    /// Composes an address from a block's compressed offset and an offset
    /// inside its decompressed data.
    pub fn from_parts(compressed: u64, uncompressed: u16) -> (r: Address)
        requires
            compressed <= MAX_COMPRESSED_OFFSET,
        ensures
            r.value == compressed * 0x10000 + uncompressed,
    {
        assert(compressed * 0x10000 + uncompressed <= u64::MAX) by (nonlinear_arith)
            requires
                compressed <= MAX_COMPRESSED_OFFSET,
                uncompressed <= u16::MAX,
        ;
        Address { value: compressed * 0x10000 + uncompressed as u64 }
    }

    /// The compressed offset of the block that the address points into.
    pub fn compressed(&self) -> (r: u64)
        ensures
            r == self.value / 0x10000,
    {
        self.value / 0x10000
    }

    /// The offset inside the decompressed block.
    pub fn uncompressed(&self) -> (r: u16)
        ensures
            r == self.value % 0x10000,
    {
        (self.value % 0x10000) as u16
    }
}

impl From<u64> for Address {
    fn from(value: u64) -> (r: Address) {
        Address { value }
    }
}

impl vstd::std_specs::convert::FromSpecImpl<u64> for Address {
    open spec fn obeys_from_spec() -> bool {
        true
    }

    open spec fn from_spec(value: u64) -> Address {
        Address { value }
    }
}

} // verus!
