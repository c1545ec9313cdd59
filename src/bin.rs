//! Bins: the coalesced chunk list filed under one bin id.
use vstd::prelude::*;

use crate::chunk::{coalesce, Chunk};

verus! {

/// The chunks of one bin, ascending, with touching and overlapping chunks
/// merged.
#[derive(Clone, Debug, PartialEq, Eq)]
pub struct Bin {
    pub id: u64,
    pub chunks: Vec<Chunk>,
}

impl View for Bin {
    type V = (u64, Seq<Chunk>);

    open spec fn view(&self) -> (u64, Seq<Chunk>) {
        (self.id, self.chunks@)
    }
}

impl Bin {
    /// Creates a bin.
    pub fn new(id: u64, chunks: Vec<Chunk>) -> (r: Bin)
        ensures
            r@ == (id, chunks@),
    {
        Bin { id, chunks }
    }

    /// The bin's id.
    pub fn id(&self) -> (r: u64)
        ensures
            r == self.id,
    {
        self.id
    }

    /// The bin's chunks.
    pub fn chunks(&self) -> (r: &[Chunk])
        ensures
            r@ == self.chunks@,
    {
        self.chunks.as_slice()
    }
}

/// Accumulates the chunks of one bin as records arrive in address order.
#[derive(Debug)]
pub struct Builder {
    pub id: u64,
    pub chunks: Vec<Chunk>,
}

impl View for Builder {
    type V = (u64, Seq<Chunk>);

    open spec fn view(&self) -> (u64, Seq<Chunk>) {
        (self.id, self.chunks@)
    }
}

impl Builder {
    /// Creates an empty builder for bin `id`.
    pub fn new(id: u64) -> (r: Builder)
        ensures
            r@ == (id, Seq::<Chunk>::empty()),
    {
        Builder { id, chunks: Vec::new() }
    }

    /// Adds a chunk, merging it into the last one where it starts no later
    /// than the last one ends.
    ///
    /// Chunks are expected in non-decreasing address order; the merged chunk
    /// takes the new chunk's end as it is.
    pub fn add_chunk(&mut self, chunk: Chunk)
        ensures
            final(self)@ == (old(self).id, coalesce(old(self).chunks@, chunk)),
    {
        let n = self.chunks.len();
        if n > 0 && chunk.start.value <= self.chunks[n - 1].end.value {
            let start = self.chunks[n - 1].start;
            self.chunks[n - 1] = Chunk { start, end: chunk.end };
            proof {
                assert(self.chunks@ =~= coalesce(old(self).chunks@, chunk));
            }
        } else {
            self.chunks.push(chunk);
        }
    }

    /// Freezes the builder into a bin.
    pub fn build(self) -> (r: Bin)
        ensures
            r@ == self@,
    {
        Bin { id: self.id, chunks: self.chunks }
    }
}

impl Default for Builder {
    fn default() -> (r: Builder)
        ensures
            r@ == (0u64, Seq::<Chunk>::empty()),
    {
        Builder::new(0)
    }
}

} // verus!
