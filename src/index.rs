//! The index of a whole stream: one reference sequence per reference id,
//! its builder, and queries against it.
use vstd::prelude::*;

use crate::binning::{valid_interval, valid_scheme};
use crate::chunk::Chunk;
use crate::query::query_chunks;
use crate::reference_sequence::{
    self, add_record_view, build_view, unique_ids, BinView, BuilderView, ReferenceSequence,
    ReferenceSequenceView,
};

verus! {

/// Why the index refused a call.
#[derive(Clone, Copy, Debug, PartialEq, Eq, Structural)]
pub enum IndexError {
    /// `min_shift` and `depth` do not fit a 64-bit scheme.
    InvalidScheme,
    /// The reference id is not below the number of reference sequences.
    InvalidReferenceSequenceId,
    /// The interval is empty or reaches past the coordinates the scheme covers.
    InvalidInterval,
}

/// An index builder as the contracts see it: `min_shift`, `depth`, the
/// reference sequence builders and the count of unplaced, unmapped records.
pub type IndexBuilderView = (u8, u8, Seq<BuilderView>, u64);

/// An index as the contracts see it: `min_shift`, `depth`, the reference
/// sequences and the count of unplaced, unmapped records.
pub type IndexView = (u8, u8, Seq<ReferenceSequenceView>, Option<u64>);

/// A record as the index consumes it: its reference id, its interval and the
/// chunk that holds its data.
pub type RecordView = (usize, u64, u64, Chunk);

/// The result of adding a record to a builder in state `v`, and its state
/// afterwards.
pub open spec fn add_record_step(
    v: IndexBuilderView,
    reference_sequence_id: usize,
    start: u64,
    end: u64,
    chunk: Chunk,
) -> (Result<(), IndexError>, IndexBuilderView) {
    if reference_sequence_id >= v.2.len() {
        (Err(IndexError::InvalidReferenceSequenceId), v)
    } else if !valid_interval(start as nat, end as nat, v.0 as nat, v.1 as nat) {
        (Err(IndexError::InvalidInterval), v)
    } else {
        (
            Ok(()),
            (
                v.0,
                v.1,
                v.2.update(
                    reference_sequence_id as int,
                    add_record_view(
                        v.2[reference_sequence_id as int],
                        v.0 as nat,
                        v.1 as nat,
                        start as nat,
                        end as nat,
                        chunk,
                    ),
                ),
                v.3,
            ),
        )
    }
}

/// The state of a builder in state `v` after each of `records` in turn.
pub open spec fn add_records(v: IndexBuilderView, records: Seq<RecordView>) -> IndexBuilderView
    decreases records.len(),
{
    if records.len() == 0 {
        v
    } else {
        let r = records.last();
        add_record_step(add_records(v, records.drop_last()), r.0, r.1, r.2, r.3).1
    }
}

/// A fresh builder's state.
pub open spec fn empty_builder(min_shift: u8, depth: u8, reference_sequence_count: nat) -> IndexBuilderView {
    (min_shift, depth, Seq::new(reference_sequence_count, |i: int| (Seq::<BinView>::empty(), u64::MAX, 0u64)), 0)
}

/// The index that a builder in state `v` freezes into.
pub open spec fn build_index(v: IndexBuilderView) -> IndexView {
    (v.0, v.1, v.2.map_values(|b: BuilderView| build_view(b)), Some(v.3))
}

/// The answer to a query on `[start, end)` of reference sequence
/// `reference_sequence_id` of index `v`.
pub open spec fn query_index(
    v: IndexView,
    reference_sequence_id: usize,
    start: u64,
    end: u64,
) -> Result<Seq<Chunk>, IndexError> {
    if !valid_scheme(v.0 as nat, v.1 as nat) {
        Err(IndexError::InvalidScheme)
    } else if reference_sequence_id >= v.2.len() {
        Err(IndexError::InvalidReferenceSequenceId)
    } else if !valid_interval(start as nat, end as nat, v.0 as nat, v.1 as nat) {
        Err(IndexError::InvalidInterval)
    } else if v.2[reference_sequence_id as int].1 is None {
        Ok(Seq::empty())
    } else {
        Ok(
            query_chunks(
                v.2[reference_sequence_id as int].0,
                start as nat,
                end as nat,
                v.0 as nat,
                v.1 as nat,
            ),
        )
    }
}

/// A binning index over a coordinate-sorted stream.
#[derive(Clone, Debug, PartialEq, Eq)]
pub struct Index {
    pub min_shift: u8,
    pub depth: u8,
    pub reference_sequences: Vec<ReferenceSequence>,
    pub unplaced_unmapped_record_count: Option<u64>,
}

impl View for Index {
    type V = IndexView;

    open spec fn view(&self) -> IndexView {
        (
            self.min_shift,
            self.depth,
            self.reference_sequences@.map_values(|r: ReferenceSequence| r@),
            self.unplaced_unmapped_record_count,
        )
    }
}

impl Index {
    /// Returns the chunks to scan for records on `[start, end)` of reference
    /// sequence `reference_sequence_id`.
    ///
    /// A reference sequence that no record was added to gives no chunks. An
    /// invalid scheme, an id past the last reference sequence, or an interval
    /// that is empty or reaches past the coordinates of the scheme, is an
    /// error.
    pub fn query(&self, reference_sequence_id: usize, start: u64, end: u64) -> (r: Result<Vec<Chunk>, IndexError>)
        ensures
            r matches Ok(chunks) ==> query_index(self@, reference_sequence_id, start, end) == Ok::<Seq<Chunk>, IndexError>(chunks@),
            r matches Err(e) ==> query_index(self@, reference_sequence_id, start, end) == Err::<Seq<Chunk>, IndexError>(e),
    {
        if self.min_shift as u64 + 3 * self.depth as u64 > 63 {
            return Err(IndexError::InvalidScheme);
        }
        if reference_sequence_id >= self.reference_sequences.len() {
            return Err(IndexError::InvalidReferenceSequenceId);
        }
        if !interval_is_valid(start, end, self.min_shift, self.depth) {
            return Err(IndexError::InvalidInterval);
        }
        let reference_sequence = &self.reference_sequences[reference_sequence_id];
        proof {
            assert(self@.2[reference_sequence_id as int] == reference_sequence@);
        }
        if reference_sequence.metadata.is_none() {
            return Ok(Vec::new());
        }
        Ok(reference_sequence.query(start, end, self.min_shift, self.depth))
    }
}

/// Returns whether `[start, end)` is non-empty and within the coordinates
/// that the scheme covers.
pub fn interval_is_valid(start: u64, end: u64, min_shift: u8, depth: u8) -> (r: bool)
    requires
        valid_scheme(min_shift as nat, depth as nat),
    ensures
        r == valid_interval(start as nat, end as nat, min_shift as nat, depth as nat),
{
    let s = min_shift as u64 + 3 * depth as u64;
    proof {
        vstd::bits::lemma_u64_pow2_no_overflow(s as nat);
        vstd::bits::lemma_u64_shl_is_mul(1, s);
    }
    start < end && end <= (1u64 << s)
}

/// Accumulates an index from a coordinate-sorted stream of records.
///
/// Within each reference sequence, records are expected in non-decreasing
/// coordinate and address order; this is not checked, and records out of
/// order give a chunk list that is split where it need not be or that
/// misses data.
#[derive(Debug)]
pub struct IndexBuilder {
    pub min_shift: u8,
    pub depth: u8,
    pub reference_sequence_builders: Vec<reference_sequence::Builder>,
    pub unplaced_unmapped_record_count: u64,
}

impl View for IndexBuilder {
    type V = IndexBuilderView;

    open spec fn view(&self) -> IndexBuilderView {
        (
            self.min_shift,
            self.depth,
            self.reference_sequence_builders@.map_values(|b: reference_sequence::Builder| b@),
            self.unplaced_unmapped_record_count,
        )
    }
}

impl IndexBuilder {
    /// The builder's invariant: the scheme is valid and every reference
    /// sequence builder keeps its bin ids unique.
    pub open spec fn wf(&self) -> bool {
        &&& valid_scheme(self.min_shift as nat, self.depth as nat)
        &&& forall|i: int|
            0 <= i < self.reference_sequence_builders.len()
                ==> #[trigger] self.reference_sequence_builders@[i].wf()
    }

    /// Creates a builder for `reference_sequence_count` reference sequences
    /// under the scheme `min_shift`, `depth`.
    pub fn new(min_shift: u8, depth: u8, reference_sequence_count: usize) -> (r: Result<IndexBuilder, IndexError>)
        ensures
            r matches Ok(b) ==> b.wf() && b@ == empty_builder(min_shift, depth, reference_sequence_count as nat),
            r is Err <==> !valid_scheme(min_shift as nat, depth as nat),
            r matches Err(e) ==> e == IndexError::InvalidScheme,
    {
        if min_shift as u64 + 3 * depth as u64 > 63 {
            return Err(IndexError::InvalidScheme);
        }
        let mut builders: Vec<reference_sequence::Builder> = Vec::new();
        let mut i: usize = 0;
        while i < reference_sequence_count
            invariant
                i <= reference_sequence_count,
                builders@.len() == i,
                forall|j: int| 0 <= j < i ==> (#[trigger] builders@[j]).wf(),
                forall|j: int| 0 <= j < i ==> (#[trigger] builders@[j])@ == (Seq::<BinView>::empty(), u64::MAX, 0u64),
            decreases reference_sequence_count - i,
        {
            builders.push(reference_sequence::Builder::new());
            i = i + 1;
        }
        let r = IndexBuilder {
            min_shift,
            depth,
            reference_sequence_builders: builders,
            unplaced_unmapped_record_count: 0,
        };
        proof {
            assert(r@.2 =~= empty_builder(min_shift, depth, reference_sequence_count as nat).2);
        }
        Ok(r)
    }

    /// Adds a record on `[start, end)` of reference sequence
    /// `reference_sequence_id` whose data lies in `chunk`.
    pub fn add_record(&mut self, reference_sequence_id: usize, start: u64, end: u64, chunk: Chunk) -> (r: Result<(), IndexError>)
        requires
            old(self).wf(),
        ensures
            final(self).wf(),
            (r, final(self)@) == add_record_step(old(self)@, reference_sequence_id, start, end, chunk),
    {
        if reference_sequence_id >= self.reference_sequence_builders.len() {
            return Err(IndexError::InvalidReferenceSequenceId);
        }
        if !interval_is_valid(start, end, self.min_shift, self.depth) {
            return Err(IndexError::InvalidInterval);
        }
        let ghost before = self@;
        let min_shift = self.min_shift;
        let depth = self.depth;
        proof {
            assert(self.reference_sequence_builders@[reference_sequence_id as int].wf());
        }
        self.reference_sequence_builders[reference_sequence_id].add_record(min_shift, depth, start, end, chunk);
        proof {
            assert(self@.2 =~= add_record_step(before, reference_sequence_id, start, end, chunk).1.2);
            assert forall|i: int| 0 <= i < self.reference_sequence_builders.len() implies #[trigger] self.reference_sequence_builders@[i].wf() by {
                if i != reference_sequence_id {
                    assert(self.reference_sequence_builders@[i] == old(self).reference_sequence_builders@[i]);
                }
            }
        }
        Ok(())
    }

    /// Counts a record that has no reference sequence, saturating at the
    /// largest count.
    pub fn add_unplaced_unmapped_record(&mut self)
        ensures
            final(self).min_shift == old(self).min_shift,
            final(self).depth == old(self).depth,
            final(self).reference_sequence_builders == old(self).reference_sequence_builders,
            final(self).unplaced_unmapped_record_count == if old(self).unplaced_unmapped_record_count == u64::MAX {
                u64::MAX
            } else {
                (old(self).unplaced_unmapped_record_count + 1) as u64
            },
    {
        self.unplaced_unmapped_record_count = self.unplaced_unmapped_record_count.saturating_add(1);
    }

    /// Freezes every reference sequence builder, in reference id order, into
    /// an index.
    pub fn build(self) -> (r: Index)
        ensures
            r@ == build_index(self@),
    {
        let ghost v = self@;
        let n = self.reference_sequence_builders.len();
        let mut builders = self.reference_sequence_builders;
        let mut reversed: Vec<reference_sequence::Builder> = Vec::new();
        while builders.len() > 0
            invariant
                n == v.2.len(),
                builders.len() + reversed.len() == n,
                forall|j: int| 0 <= j < builders.len() ==> #[trigger] builders@[j]@ == v.2[j],
                forall|j: int| 0 <= j < reversed.len() ==> #[trigger] reversed@[j]@ == v.2[n - 1 - j],
            decreases builders.len(),
        {
            let b = builders.pop().unwrap();
            reversed.push(b);
        }
        let mut out: Vec<ReferenceSequence> = Vec::new();
        while reversed.len() > 0
            invariant
                n == v.2.len(),
                reversed.len() <= n,
                out.len() == n - reversed.len(),
                forall|j: int| 0 <= j < reversed.len() ==> #[trigger] reversed@[j]@ == v.2[n - 1 - j],
                forall|j: int| 0 <= j < out.len() ==> #[trigger] out@[j]@ == build_view(v.2[j]),
            decreases reversed.len(),
        {
            proof {
                assert(reversed@[reversed.len() - 1]@ == v.2[n - 1 - (reversed.len() - 1)]);
            }
            let b = reversed.pop().unwrap();
            out.push(b.build());
        }
        let r = Index {
            min_shift: self.min_shift,
            depth: self.depth,
            reference_sequences: out,
            unplaced_unmapped_record_count: Some(self.unplaced_unmapped_record_count),
        };
        proof {
            assert(r@.2 =~= build_index(v).2);
        }
        r
    }
}

/// Adding records leaves the scheme and the number of reference sequences
/// as they are, and leaves alone every reference sequence that none of the
/// records names.
proof fn lemma_add_records_frame(v: IndexBuilderView, records: Seq<RecordView>, id: int)
    requires
        0 <= id < v.2.len(),
        forall|i: int| 0 <= i < records.len() ==> #[trigger] records[i].0 != id,
    ensures
        add_records(v, records).0 == v.0,
        add_records(v, records).1 == v.1,
        add_records(v, records).2.len() == v.2.len(),
        add_records(v, records).2[id] == v.2[id],
    decreases records.len(),
{
    if records.len() > 0 {
        let rest = records.drop_last();
        assert forall|i: int| 0 <= i < rest.len() implies #[trigger] rest[i].0 != id by {
            assert(rest[i] == records[i]);
        }
        lemma_add_records_frame(v, rest, id);
        assert(records.last() == records[records.len() - 1]);
    }
}

/// A reference sequence that none of the records fed to a fresh builder
/// names answers every valid query with no chunks and no error.
pub proof fn lemma_untouched_reference_sequence_is_empty(
    min_shift: u8,
    depth: u8,
    reference_sequence_count: nat,
    records: Seq<RecordView>,
    reference_sequence_id: usize,
    start: u64,
    end: u64,
)
    requires
        valid_scheme(min_shift as nat, depth as nat),
        reference_sequence_id < reference_sequence_count,
        valid_interval(start as nat, end as nat, min_shift as nat, depth as nat),
        forall|i: int| 0 <= i < records.len() ==> #[trigger] records[i].0 != reference_sequence_id,
    ensures
        query_index(
            build_index(add_records(empty_builder(min_shift, depth, reference_sequence_count), records)),
            reference_sequence_id,
            start,
            end,
        ) == Ok::<Seq<Chunk>, IndexError>(Seq::empty()),
{
    let v = empty_builder(min_shift, depth, reference_sequence_count);
    lemma_add_records_frame(v, records, reference_sequence_id as int);
}

/// Building depends on nothing but the builder's state and the records fed
/// to it: two builders that start alike and receive the same records freeze
/// into equal indexes.
pub proof fn lemma_build_is_idempotent(
    first: IndexBuilderView,
    second: IndexBuilderView,
    records: Seq<RecordView>,
    same_records: Seq<RecordView>,
)
    requires
        first == second,
        records == same_records,
    ensures
        build_index(add_records(first, records)) == build_index(add_records(second, same_records)),
{
}

} // verus!
