use vstd::prelude::*;

use crate::address::Address;

verus! {

/// A half-open range `[start, end)` of addresses in the compressed stream.
#[derive(Clone, Copy, Debug, PartialEq, Eq, Structural, Hash)]
pub struct Chunk {
    pub start: Address,
    pub end: Address,
}

/// Appends `c` to a coalesced chunk list: where `c` starts no later than the
/// last chunk ends, the last chunk is extended to end where `c` ends;
/// otherwise `c` is added as a new chunk.
pub open spec fn coalesce(chunks: Seq<Chunk>, c: Chunk) -> Seq<Chunk> {
    if chunks.len() > 0 && c.start.value <= chunks.last().end.value {
        chunks.drop_last().push(Chunk { start: chunks.last().start, end: c.end })
    } else {
        chunks.push(c)
    }
}

/// The chunk list that coalescing each chunk of `cs` in turn produces.
pub open spec fn coalesce_all(cs: Seq<Chunk>) -> Seq<Chunk>
    decreases cs.len(),
{
    if cs.len() == 0 {
        Seq::empty()
    } else {
        coalesce(coalesce_all(cs.drop_last()), cs.last())
    }
}

impl Chunk {
    /// Creates a chunk.
    pub fn new(start: Address, end: Address) -> (r: Chunk)
        ensures
            r.start == start,
            r.end == end,
    {
        Chunk { start, end }
    }

    /// The first address of the chunk.
    pub fn start(&self) -> (r: Address)
        ensures
            r == self.start,
    {
        self.start
    }

    /// The address just past the chunk.
    pub fn end(&self) -> (r: Address)
        ensures
            r == self.end,
    {
        self.end
    }
}

} // verus!
