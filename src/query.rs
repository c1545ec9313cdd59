//! Resolving a query interval into the chunks that have to be scanned.
use vstd::prelude::*;

use crate::binning::{candidate_bins, is_candidate, valid_interval, valid_scheme};
use crate::chunk::Chunk;
use crate::reference_sequence::{BinView, ReferenceSequence};

verus! {

/// The chunks of the bins whose id is in `candidates`, bin by bin in the
/// order of `bins`.
pub open spec fn collect_chunks(bins: Seq<BinView>, candidates: Seq<nat>) -> Seq<Chunk>
    decreases bins.len(),
{
    if bins.len() == 0 {
        Seq::empty()
    } else if candidates.contains(bins.last().0 as nat) {
        collect_chunks(bins.drop_last(), candidates) + bins.last().1
    } else {
        collect_chunks(bins.drop_last(), candidates)
    }
}

/// Where `c` goes in `sorted`: after every chunk that starts no later than it.
pub open spec fn insert_position(sorted: Seq<Chunk>, c: Chunk) -> int
    decreases sorted.len(),
{
    if sorted.len() == 0 {
        0
    } else if sorted.last().start.value > c.start.value {
        insert_position(sorted.drop_last(), c)
    } else {
        sorted.len() as int
    }
}

/// `chunks` sorted by start address, stably: chunks with equal starts keep
/// their order.
pub open spec fn sort_by_start(chunks: Seq<Chunk>) -> Seq<Chunk>
    decreases chunks.len(),
{
    if chunks.len() == 0 {
        Seq::empty()
    } else {
        let sorted = sort_by_start(chunks.drop_last());
        sorted.insert(insert_position(sorted, chunks.last()), chunks.last())
    }
}

/// Appends `c` to a merged chunk list: where `c` starts no later than the
/// last chunk ends, the last chunk is widened to cover `c` as well.
pub open spec fn merge(chunks: Seq<Chunk>, c: Chunk) -> Seq<Chunk> {
    if chunks.len() > 0 && c.start.value <= chunks.last().end.value {
        let end = if c.end.value > chunks.last().end.value {
            c.end
        } else {
            chunks.last().end
        };
        chunks.drop_last().push(Chunk { start: chunks.last().start, end })
    } else {
        chunks.push(c)
    }
}

/// The list that merging each chunk of `cs` in turn produces.
pub open spec fn merge_all(cs: Seq<Chunk>) -> Seq<Chunk>
    decreases cs.len(),
{
    if cs.len() == 0 {
        Seq::empty()
    } else {
        merge(merge_all(cs.drop_last()), cs.last())
    }
}

/// The chunks to scan for records on `[start, end)` among `bins`: those of
/// every candidate bin, sorted by start and merged.
pub open spec fn query_chunks(
    bins: Seq<BinView>,
    start: nat,
    end: nat,
    min_shift: nat,
    depth: nat,
) -> Seq<Chunk> {
    merge_all(sort_by_start(collect_chunks(bins, candidate_bins(start, end, min_shift, depth))))
}

/// Gathers the chunks of the candidate bins of `[start, end)`.
fn collect_candidate_chunks(
    reference_sequence: &ReferenceSequence,
    start: u64,
    end: u64,
    min_shift: u8,
    depth: u8,
) -> (r: Vec<Chunk>)
    requires
        valid_scheme(min_shift as nat, depth as nat),
        valid_interval(start as nat, end as nat, min_shift as nat, depth as nat),
    ensures
        r@ == collect_chunks(
            reference_sequence.bins_view(),
            candidate_bins(start as nat, end as nat, min_shift as nat, depth as nat),
        ),
{
    let ghost bins = reference_sequence.bins_view();
    let ghost candidates = candidate_bins(start as nat, end as nat, min_shift as nat, depth as nat);
    let mut out: Vec<Chunk> = Vec::new();
    let n = reference_sequence.bins.len();
    let mut i: usize = 0;
    proof {
        assert(bins.take(0) =~= Seq::<BinView>::empty());
    }
    while i < n
        invariant
            n == bins.len(),
            bins == reference_sequence.bins_view(),
            candidates == candidate_bins(start as nat, end as nat, min_shift as nat, depth as nat),
            valid_scheme(min_shift as nat, depth as nat),
            valid_interval(start as nat, end as nat, min_shift as nat, depth as nat),
            i <= n,
            out@ == collect_chunks(bins.take(i as int), candidates),
        decreases n - i,
    {
        let bin = &reference_sequence.bins[i];
        proof {
            assert(bins[i as int] == bin@);
            assert(bins.take(i + 1).drop_last() =~= bins.take(i as int));
            assert(bins.take(i + 1).last() == bins[i as int]);
        }
        if is_candidate(bin.id, start, end, min_shift, depth) {
            let ghost before = out@;
            let m = bin.chunks.len();
            let mut k: usize = 0;
            while k < m
                invariant
                    m == bin.chunks@.len(),
                    k <= m,
                    out@ == before + bin.chunks@.take(k as int),
                decreases m - k,
            {
                out.push(bin.chunks[k]);
                proof {
                    assert(bin.chunks@.take(k + 1) =~= bin.chunks@.take(k as int).push(bin.chunks@[k as int]));
                    assert(out@ =~= before + bin.chunks@.take(k + 1));
                }
                k = k + 1;
            }
            proof {
                assert(bin.chunks@.take(m as int) =~= bin.chunks@);
            }
        }
        i = i + 1;
    }
    proof {
        assert(bins.take(n as int) =~= bins);
    }
    out
}

/// Sorts chunks by start address, stably, by insertion.
pub fn sort_chunks(chunks: &Vec<Chunk>) -> (r: Vec<Chunk>)
    ensures
        r@ == sort_by_start(chunks@),
{
    let mut out: Vec<Chunk> = Vec::new();
    let n = chunks.len();
    let mut i: usize = 0;
    proof {
        assert(chunks@.take(0) =~= Seq::<Chunk>::empty());
    }
    while i < n
        invariant
            n == chunks@.len(),
            i <= n,
            out@ == sort_by_start(chunks@.take(i as int)),
        decreases n - i,
    {
        let c = chunks[i];
        let mut j = out.len();
        proof {
            assert(out@.take(j as int) =~= out@);
        }
        while j > 0 && out[j - 1].start.value > c.start.value
            invariant
                j <= out@.len(),
                insert_position(out@, c) == insert_position(out@.take(j as int), c),
            decreases j,
        {
            proof {
                assert(out@.take(j as int).drop_last() =~= out@.take(j - 1));
            }
            j = j - 1;
        }
        proof {
            assert(insert_position(out@.take(j as int), c) == j);
            assert(chunks@.take(i + 1).drop_last() =~= chunks@.take(i as int));
            assert(chunks@.take(i + 1).last() == c);
        }
        out.insert(j, c);
        i = i + 1;
    }
    proof {
        assert(chunks@.take(n as int) =~= chunks@);
    }
    out
}

/// Merges chunks that touch or overlap, in the order given.
pub fn merge_chunks(chunks: &Vec<Chunk>) -> (r: Vec<Chunk>)
    ensures
        r@ == merge_all(chunks@),
{
    let mut out: Vec<Chunk> = Vec::new();
    let n = chunks.len();
    let mut i: usize = 0;
    proof {
        assert(chunks@.take(0) =~= Seq::<Chunk>::empty());
    }
    while i < n
        invariant
            n == chunks@.len(),
            i <= n,
            out@ == merge_all(chunks@.take(i as int)),
        decreases n - i,
    {
        let c = chunks[i];
        let ghost before = out@;
        proof {
            assert(chunks@.take(i + 1).drop_last() =~= chunks@.take(i as int));
            assert(chunks@.take(i + 1).last() == c);
        }
        let m = out.len();
        if m > 0 && c.start.value <= out[m - 1].end.value {
            let last = out[m - 1];
            let end = if c.end.value > last.end.value {
                c.end
            } else {
                last.end
            };
            out[m - 1] = Chunk { start: last.start, end };
            proof {
                assert(out@ =~= merge(before, c));
            }
        } else {
            out.push(c);
        }
        i = i + 1;
    }
    proof {
        assert(chunks@.take(n as int) =~= chunks@);
    }
    out
}

impl ReferenceSequence {
    /// Returns the chunks to scan for records on `[start, end)`: the chunks of
    /// every candidate bin, sorted by start and merged where they touch or
    /// overlap. Each chunk may hold records outside the interval as well.
    pub fn query(&self, start: u64, end: u64, min_shift: u8, depth: u8) -> (r: Vec<Chunk>)
        requires
            valid_scheme(min_shift as nat, depth as nat),
            valid_interval(start as nat, end as nat, min_shift as nat, depth as nat),
        ensures
            r@ == query_chunks(self.bins_view(), start as nat, end as nat, min_shift as nat, depth as nat),
    {
        let collected = collect_candidate_chunks(self, start, end, min_shift, depth);
        let sorted = sort_chunks(&collected);
        merge_chunks(&sorted)
    }
}

/// Whether the chunks are in non-decreasing order of start address.
pub open spec fn sorted_by_start(chunks: Seq<Chunk>) -> bool {
    forall|i: int, j: int|
        0 <= i < j < chunks.len() ==> chunks[i].start.value <= chunks[j].start.value
}

/// Whether each chunk ends strictly before the next one starts: no two
/// chunks touch or overlap.
pub open spec fn separated(chunks: Seq<Chunk>) -> bool {
    forall|i: int|
        0 <= i < chunks.len() - 1 ==> #[trigger] chunks[i].end.value < chunks[i + 1].start.value
}

proof fn lemma_insert_position(sorted: Seq<Chunk>, c: Chunk)
    requires
        sorted_by_start(sorted),
    ensures
        0 <= insert_position(sorted, c) <= sorted.len(),
        forall|i: int|
            0 <= i < insert_position(sorted, c) ==> sorted[i].start.value <= c.start.value,
        forall|i: int|
            insert_position(sorted, c) <= i < sorted.len() ==> sorted[i].start.value
                > c.start.value,
    decreases sorted.len(),
{
    let p = insert_position(sorted, c);
    if sorted.len() > 0 && sorted.last().start.value > c.start.value {
        let rest = sorted.drop_last();
        assert(sorted_by_start(rest));
        lemma_insert_position(rest, c);
        assert forall|i: int| 0 <= i < p implies sorted[i].start.value <= c.start.value by {
            assert(sorted[i] == rest[i]);
        }
        assert forall|i: int| p <= i < sorted.len() implies sorted[i].start.value
            > c.start.value by {
            if i < rest.len() {
                assert(sorted[i] == rest[i]);
            }
        }
    } else if sorted.len() > 0 {
        assert forall|i: int| 0 <= i < p implies sorted[i].start.value <= c.start.value by {
            assert(sorted[i].start.value <= sorted[sorted.len() - 1].start.value);
        }
    }
}

/// Sorting by start gives chunks in non-decreasing order of start.
pub proof fn lemma_sort_by_start_sorted(chunks: Seq<Chunk>)
    ensures
        sorted_by_start(sort_by_start(chunks)),
        sort_by_start(chunks).len() == chunks.len(),
    decreases chunks.len(),
{
    if chunks.len() > 0 {
        let sorted = sort_by_start(chunks.drop_last());
        lemma_sort_by_start_sorted(chunks.drop_last());
        let c = chunks.last();
        lemma_insert_position(sorted, c);
        let p = insert_position(sorted, c);
        let r = sorted.insert(p, c);
        assert forall|i: int, j: int| 0 <= i < j < r.len() implies r[i].start.value
            <= r[j].start.value by {
            if j < p {
            } else if j == p {
            } else if i < p {
            } else if i == p {
            } else {
                assert(r[i] == sorted[i - 1] && r[j] == sorted[j - 1]);
            }
        }
    }
}

/// Merging leaves each chunk ending strictly before the next one starts.
pub proof fn lemma_merge_all_separated(chunks: Seq<Chunk>)
    ensures
        separated(merge_all(chunks)),
    decreases chunks.len(),
{
    if chunks.len() > 0 {
        let prefix = merge_all(chunks.drop_last());
        lemma_merge_all_separated(chunks.drop_last());
        let r = merge(prefix, chunks.last());
        assert forall|i: int| 0 <= i < r.len() - 1 implies #[trigger] r[i].end.value < r[i
            + 1].start.value by {
            assert(prefix[i].end.value < prefix[i + 1].start.value || i + 1 >= prefix.len());
        }
    }
}

/// A query's chunks come in order and apart: sorted by start, merged so
/// that each ends strictly before the next starts.
pub proof fn lemma_query_chunks_separated(
    bins: Seq<BinView>,
    start: nat,
    end: nat,
    min_shift: nat,
    depth: nat,
)
    ensures
        separated(query_chunks(bins, start, end, min_shift, depth)),
{
    lemma_merge_all_separated(
        sort_by_start(collect_chunks(bins, candidate_bins(start, end, min_shift, depth))),
    );
}

} // verus!
