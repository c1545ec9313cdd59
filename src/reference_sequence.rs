//! The bins and summary of one reference sequence, and their builder.
use vstd::prelude::*;

use crate::address::Address;
use crate::bin::{self, Bin};
use crate::binning::{bin_of, to_bin, valid_interval, valid_scheme};
use crate::chunk::{coalesce, Chunk};

verus! {

/// A bin as the contracts see it: its id and its chunks.
pub type BinView = (u64, Seq<Chunk>);

/// Whether no two bins share an id.
pub open spec fn unique_ids(bins: Seq<BinView>) -> bool {
    forall|i: int, j: int|
        0 <= i < bins.len() && 0 <= j < bins.len() && i != j ==> bins[i].0 != bins[j].0
}

/// Whether some bin has id `id`.
pub open spec fn has_bin(bins: Seq<BinView>, id: u64) -> bool {
    exists|i: int| 0 <= i < bins.len() && bins[i].0 == id
}

/// Files `c` under bin `id`: coalesced into that bin's chunks where the bin
/// exists, else as the only chunk of a new bin appended at the end.
pub open spec fn file_chunk(bins: Seq<BinView>, id: u64, c: Chunk) -> Seq<BinView> {
    if has_bin(bins, id) {
        let i = choose|i: int| 0 <= i < bins.len() && bins[i].0 == id;
        bins.update(i, (id, coalesce(bins[i].1, c)))
    } else {
        bins.push((id, seq![c]))
    }
}

/// The bins that hold at least one chunk, in their order.
pub open spec fn nonempty_bins(bins: Seq<BinView>) -> Seq<BinView>
    decreases bins.len(),
{
    if bins.len() == 0 {
        Seq::empty()
    } else if bins.last().1.len() > 0 {
        nonempty_bins(bins.drop_last()).push(bins.last())
    } else {
        nonempty_bins(bins.drop_last())
    }
}

/// A reference sequence builder as the contracts see it: its bins, the
/// smallest start address and the largest end address seen.
pub type BuilderView = (Seq<BinView>, u64, u64);

/// A reference sequence as the contracts see it: its bins and its summary.
pub type ReferenceSequenceView = (Seq<BinView>, Option<Metadata>);

/// The builder state after a record on `[start, end)` with data in `chunk`.
pub open spec fn add_record_view(
    v: BuilderView,
    min_shift: nat,
    depth: nat,
    start: nat,
    end: nat,
    chunk: Chunk,
) -> BuilderView {
    (
        file_chunk(v.0, bin_of(start, end, min_shift, depth) as u64, chunk),
        if chunk.start.value < v.1 {
            chunk.start.value
        } else {
            v.1
        },
        if chunk.end.value > v.2 {
            chunk.end.value
        } else {
            v.2
        },
    )
}

/// The reference sequence that a builder in state `v` freezes into.
pub open spec fn build_view(v: BuilderView) -> ReferenceSequenceView {
    (
        nonempty_bins(v.0),
        if v.0.len() == 0 {
            None
        } else {
            Some(
                Metadata {
                    first_start: Address { value: v.1 },
                    last_end: Address { value: v.2 },
                    mapped_count: 0,
                    unmapped_count: 0,
                },
            )
        },
    )
}

/// Summary of the records placed in a reference sequence.
#[derive(Clone, Copy, Debug, PartialEq, Eq, Structural)]
pub struct Metadata {
    pub first_start: Address,
    pub last_end: Address,
    pub mapped_count: u64,
    pub unmapped_count: u64,
}

impl Metadata {
    /// Creates a summary.
    pub fn new(first_start: Address, last_end: Address, mapped_count: u64, unmapped_count: u64) -> (r: Metadata)
        ensures
            r == (Metadata { first_start, last_end, mapped_count, unmapped_count }),
    {
        Metadata { first_start, last_end, mapped_count, unmapped_count }
    }
}

/// The bins of one reference sequence and, where records were added, their
/// summary.
#[derive(Clone, Debug, PartialEq, Eq)]
pub struct ReferenceSequence {
    pub bins: Vec<Bin>,
    pub metadata: Option<Metadata>,
}

impl View for ReferenceSequence {
    type V = ReferenceSequenceView;

    open spec fn view(&self) -> ReferenceSequenceView {
        (self.bins_view(), self.metadata)
    }
}

impl ReferenceSequence {
    /// The bins as the contracts see them.
    pub open spec fn bins_view(&self) -> Seq<BinView> {
        self.bins@.map_values(|b: Bin| b@)
    }

    /// Creates a reference sequence.
    pub fn new(bins: Vec<Bin>, metadata: Option<Metadata>) -> (r: ReferenceSequence)
        ensures
            r.bins@ == bins@,
            r.metadata == metadata,
    {
        ReferenceSequence { bins, metadata }
    }
}

/// Accumulates the bins and summary of one reference sequence from records
/// that arrive in coordinate order.
///
/// The record counts of the summary are not accumulated here: they stay
/// zero, for a separate pass to fill.
#[derive(Debug)]
pub struct Builder {
    pub bin_builders: Vec<bin::Builder>,
    pub start_position: Address,
    pub end_position: Address,
}

impl View for Builder {
    type V = BuilderView;

    open spec fn view(&self) -> BuilderView {
        (self.bins_view(), self.start_position.value, self.end_position.value)
    }
}

impl Builder {
    /// The bins as the contracts see them, in the order they were created.
    pub open spec fn bins_view(&self) -> Seq<BinView> {
        self.bin_builders@.map_values(|b: bin::Builder| b@)
    }

    /// The builder's invariant: bin ids are unique.
    pub open spec fn wf(&self) -> bool {
        unique_ids(self.bins_view())
    }

    /// Creates a builder with no records.
    pub fn new() -> (r: Builder)
        ensures
            r.wf(),
            r@ == (Seq::<BinView>::empty(), u64::MAX, 0u64),
    {
        let r = Builder {
            bin_builders: Vec::new(),
            start_position: Address::maximum(),
            end_position: Address::minimum(),
        };
        proof {
            assert(r.bins_view() =~= Seq::<BinView>::empty());
        }
        r
    }

    /// Adds a record on `[start, end)` whose data lies in `chunk`: files the
    /// chunk under the record's bin and widens the address bounds.
    pub fn add_record(&mut self, min_shift: u8, depth: u8, start: u64, end: u64, chunk: Chunk)
        requires
            old(self).wf(),
            valid_scheme(min_shift as nat, depth as nat),
            valid_interval(start as nat, end as nat, min_shift as nat, depth as nat),
        ensures
            final(self).wf(),
            final(self)@ == add_record_view(
                old(self)@,
                min_shift as nat,
                depth as nat,
                start as nat,
                end as nat,
                chunk,
            ),
    {
        self.update_bins(min_shift, depth, start, end, chunk);
        self.update_metadata(chunk);
    }

    fn update_bins(&mut self, min_shift: u8, depth: u8, start: u64, end: u64, chunk: Chunk)
        requires
            old(self).wf(),
            valid_scheme(min_shift as nat, depth as nat),
            valid_interval(start as nat, end as nat, min_shift as nat, depth as nat),
        ensures
            final(self).wf(),
            final(self).bins_view() == file_chunk(
                old(self).bins_view(),
                bin_of(start as nat, end as nat, min_shift as nat, depth as nat) as u64,
                chunk,
            ),
            final(self).start_position == old(self).start_position,
            final(self).end_position == old(self).end_position,
    {
        let bin_id = to_bin(start, end, min_shift, depth);
        let ghost bins = self.bins_view();
        let n = self.bin_builders.len();
        let mut i: usize = 0;
        while i < n && self.bin_builders[i].id != bin_id
            invariant
                n == self.bin_builders.len(),
                bins == self.bins_view(),
                i <= n,
                forall|j: int| 0 <= j < i ==> bins[j].0 != bin_id,
            decreases n - i,
        {
            i = i + 1;
        }
        if i < n {
            proof {
                assert(bins[i as int].0 == bin_id);
                assert(has_bin(bins, bin_id));
            }
            self.bin_builders[i].add_chunk(chunk);
            proof {
                let j = choose|j: int| 0 <= j < bins.len() && bins[j].0 == bin_id;
                assert(j == i);
                assert(self.bins_view() =~= file_chunk(bins, bin_id, chunk));
            }
        } else {
            let mut b = bin::Builder::new(bin_id);
            b.add_chunk(chunk);
            self.bin_builders.push(b);
            proof {
                assert(!has_bin(bins, bin_id));
                assert(b@.1 =~= seq![chunk]);
                assert(self.bins_view() =~= file_chunk(bins, bin_id, chunk));
            }
        }
    }

    fn update_metadata(&mut self, chunk: Chunk)
        ensures
            final(self).bin_builders == old(self).bin_builders,
            final(self).start_position.value == if chunk.start.value < old(self).start_position.value {
                chunk.start.value
            } else {
                old(self).start_position.value
            },
            final(self).end_position.value == if chunk.end.value > old(self).end_position.value {
                chunk.end.value
            } else {
                old(self).end_position.value
            },
    {
        if chunk.start.value < self.start_position.value {
            self.start_position = chunk.start;
        }
        if chunk.end.value > self.end_position.value {
            self.end_position = chunk.end;
        }
    }

    /// Freezes the builder: bins without chunks are left out, and the summary
    /// is present exactly where a record was added.
    pub fn build(self) -> (r: ReferenceSequence)
        ensures
            r@ == build_view(self@),
    {
        let ghost bins = self.bins_view();
        let n = self.bin_builders.len();
        let metadata = if n == 0 {
            None
        } else {
            Some(Metadata::new(self.start_position, self.end_position, 0, 0))
        };
        let mut builders = self.bin_builders;
        let mut reversed: Vec<bin::Builder> = Vec::new();
        while builders.len() > 0
            invariant
                n == bins.len(),
                builders.len() + reversed.len() == n,
                forall|j: int| 0 <= j < builders.len() ==> #[trigger] builders@[j]@ == bins[j],
                forall|j: int| 0 <= j < reversed.len() ==> #[trigger] reversed@[j]@ == bins[n - 1 - j],
            decreases builders.len(),
        {
            let b = builders.pop().unwrap();
            reversed.push(b);
        }
        let mut out: Vec<Bin> = Vec::new();
        proof {
            assert(bins.take(0) =~= Seq::<BinView>::empty());
            assert(out@.map_values(|b: Bin| b@) =~= nonempty_bins(bins.take(0)));
        }
        while reversed.len() > 0
            invariant
                n == bins.len(),
                reversed.len() <= n,
                forall|j: int| 0 <= j < reversed.len() ==> #[trigger] reversed@[j]@ == bins[n - 1 - j],
                out@.map_values(|b: Bin| b@) == nonempty_bins(bins.take(n - reversed.len())),
            decreases reversed.len(),
        {
            let ghost k = n - reversed.len();
            proof {
                assert(reversed@[reversed.len() - 1]@ == bins[n - 1 - (reversed.len() - 1)]);
            }
            let b = reversed.pop().unwrap();
            let ghost before = out@;
            proof {
                assert(b@ == bins[k]);
                assert(bins.take(k + 1).drop_last() =~= bins.take(k));
                assert(bins.take(k + 1).last() == bins[k]);
                assert(nonempty_bins(bins.take(k + 1)) == if bins[k].1.len() > 0 {
                    nonempty_bins(bins.take(k)).push(bins[k])
                } else {
                    nonempty_bins(bins.take(k))
                });
            }
            if b.chunks.len() > 0 {
                out.push(b.build());
                proof {
                    assert(out@.map_values(|b: Bin| b@) =~= before.map_values(|b: Bin| b@).push(bins[k]));
                }
            }
        }
        proof {
            assert(bins.take(n as int) =~= bins);
        }
        ReferenceSequence { bins: out, metadata }
    }
}

impl Default for Builder {
    fn default() -> (r: Builder)
        ensures
            r.wf(),
            r@ == (Seq::<BinView>::empty(), u64::MAX, 0u64),
    {
        Builder::new()
    }
}

} // verus!
