use binning_index::address::Address;
use binning_index::bin::{self, Bin};
use binning_index::binning::{is_candidate, to_bin, to_candidate_bins};
use binning_index::chunk::Chunk;
use binning_index::index::{Index, IndexBuilder, IndexError};
use binning_index::query::{merge_chunks, sort_chunks};
use binning_index::reference_sequence::{self, Metadata, ReferenceSequence};

const MIN_SHIFT: u8 = 14;
const DEPTH: u8 = 5;

fn chunk(start: u64, end: u64) -> Chunk {
    Chunk::new(Address::from(start), Address::from(end))
}

#[test]
fn test_add_chunk() {
    let mut builder = bin::Builder::default();

    assert!(builder.chunks.is_empty());

    builder.add_chunk(chunk(5, 13));
    assert_eq!(builder.chunks, [chunk(5, 13)]);

    builder.add_chunk(chunk(8, 21));
    assert_eq!(builder.chunks, [chunk(5, 21)]);

    builder.add_chunk(chunk(34, 55));
    assert_eq!(builder.chunks, [chunk(5, 21), chunk(34, 55)]);
}

#[test]
fn builder_test_build() {
    let mut bin_builder = bin::Builder::default();
    bin_builder.add_chunk(chunk(5, 13));
    assert_eq!(bin_builder.build(), Bin::new(0, vec![chunk(5, 13)]));

    let mut builder = reference_sequence::Builder::default();
    builder.add_record(MIN_SHIFT, DEPTH, 2, 5, chunk(55, 89));
    builder.add_record(MIN_SHIFT, DEPTH, 8, 13, chunk(89, 144));

    let actual = builder.build();

    let expected = ReferenceSequence::new(
        vec![Bin::new(4681, vec![chunk(55, 144)])],
        Some(Metadata::new(Address::from(55), Address::from(144), 0, 0)),
    );

    assert_eq!(actual, expected);
}

#[test]
fn coalesce_touching_and_apart_chunks() {
    let mut builder = bin::Builder::new(7);
    builder.add_chunk(chunk(0, 10));
    builder.add_chunk(chunk(10, 20));
    assert_eq!(builder.chunks, [chunk(0, 20)]);

    let mut builder = bin::Builder::new(7);
    builder.add_chunk(chunk(0, 10));
    builder.add_chunk(chunk(15, 20));
    assert_eq!(builder.chunks, [chunk(0, 10), chunk(15, 20)]);
    assert_eq!(builder.build().id(), 7);
}

#[test]
fn metadata_spans_all_records() {
    let mut builder = reference_sequence::Builder::new();
    builder.add_record(MIN_SHIFT, DEPTH, 0, 1, chunk(5, 13));
    builder.add_record(MIN_SHIFT, DEPTH, 70000, 70001, chunk(8, 21));
    let reference_sequence = builder.build();
    let metadata = reference_sequence.metadata.unwrap();
    assert_eq!(metadata.first_start, Address::from(5));
    assert_eq!(metadata.last_end, Address::from(21));
    assert_eq!(metadata.mapped_count, 0);
    assert_eq!(metadata.unmapped_count, 0);
    assert_eq!(reference_sequence.bins.len(), 2);
}

#[test]
fn empty_reference_sequence_has_no_metadata() {
    let reference_sequence = reference_sequence::Builder::new().build();
    assert!(reference_sequence.bins.is_empty());
    assert_eq!(reference_sequence.metadata, None);
}

#[test]
fn query_merges_chunks_of_candidate_bins() {
    let reference_sequence = ReferenceSequence::new(
        vec![
            Bin::new(4681, vec![chunk(55, 89)]),
            Bin::new(0, vec![chunk(89, 144)]),
        ],
        Some(Metadata::new(Address::from(55), Address::from(144), 0, 0)),
    );
    assert_eq!(reference_sequence.query(0, 10, MIN_SHIFT, DEPTH), vec![chunk(55, 144)]);
}

#[test]
fn query_skips_bins_outside_the_interval() {
    let reference_sequence = ReferenceSequence::new(
        vec![
            Bin::new(4681, vec![chunk(55, 89)]),
            Bin::new(4682, vec![chunk(200, 300)]),
        ],
        Some(Metadata::new(Address::from(55), Address::from(300), 0, 0)),
    );
    assert_eq!(reference_sequence.query(0, 10, MIN_SHIFT, DEPTH), vec![chunk(55, 89)]);
    assert_eq!(
        reference_sequence.query(16384, 16390, MIN_SHIFT, DEPTH),
        vec![chunk(200, 300)]
    );
}

#[test]
fn query_keeps_a_chunk_that_contains_the_next() {
    let reference_sequence = ReferenceSequence::new(
        vec![
            Bin::new(4681, vec![chunk(10, 20)]),
            Bin::new(0, vec![chunk(0, 100)]),
        ],
        Some(Metadata::new(Address::from(0), Address::from(100), 0, 0)),
    );
    assert_eq!(reference_sequence.query(0, 10, MIN_SHIFT, DEPTH), vec![chunk(0, 100)]);
}

#[test]
fn sort_is_stable_and_merge_widens() {
    let sorted = sort_chunks(&vec![chunk(30, 40), chunk(10, 20), chunk(10, 15), chunk(0, 5)]);
    assert_eq!(sorted, vec![chunk(0, 5), chunk(10, 20), chunk(10, 15), chunk(30, 40)]);
    let merged = merge_chunks(&sorted);
    assert_eq!(merged, vec![chunk(0, 5), chunk(10, 20), chunk(30, 40)]);
    assert_eq!(merge_chunks(&vec![chunk(0, 5), chunk(5, 9)]), vec![chunk(0, 9)]);
}

#[test]
fn to_bin_values() {
    assert_eq!(to_bin(2, 5, MIN_SHIFT, DEPTH), 4681);
    assert_eq!(to_bin(8, 13, MIN_SHIFT, DEPTH), 4681);
    assert_eq!(to_bin(16384, 16385, MIN_SHIFT, DEPTH), 4682);
    assert_eq!(to_bin(0, 16385, MIN_SHIFT, DEPTH), 585);
    assert_eq!(to_bin(0, 1 << 29, MIN_SHIFT, DEPTH), 0);
    assert_eq!(to_bin(0, 1 << 26, MIN_SHIFT, DEPTH), 1);
    assert_eq!(to_bin(0, 1, 0, 0), 0);
}

#[test]
fn to_bin_is_deterministic() {
    let first = to_bin(1000, 50000, MIN_SHIFT, DEPTH);
    let second = to_bin(1000, 50000, MIN_SHIFT, DEPTH);
    assert_eq!(first, second);
}

#[test]
fn candidate_bins_values() {
    assert_eq!(to_candidate_bins(0, 1, MIN_SHIFT, DEPTH), vec![0, 1, 9, 73, 585, 4681]);
    assert_eq!(
        to_candidate_bins(16000, 16500, MIN_SHIFT, DEPTH),
        vec![0, 1, 9, 73, 585, 4681, 4682]
    );
    assert_eq!(to_candidate_bins(0, 8, 1, 1), vec![0, 1, 2, 3, 4]);
}

#[test]
fn bin_is_among_candidates() {
    for (start, end) in [(0, 1), (2, 5), (16000, 16500), (0, 1 << 29), (123456, 9876543)] {
        let bin = to_bin(start, end, MIN_SHIFT, DEPTH);
        assert!(to_candidate_bins(start, end, MIN_SHIFT, DEPTH).contains(&bin));
        assert!(is_candidate(bin, start, end, MIN_SHIFT, DEPTH));
    }
    assert!(!is_candidate(4682, 0, 10, MIN_SHIFT, DEPTH));
    assert!(is_candidate(0, 0, 10, MIN_SHIFT, DEPTH));
}

fn feed(builder: &mut IndexBuilder) {
    builder.add_record(0, 2, 5, chunk(55, 89)).unwrap();
    builder.add_record(0, 8, 13, chunk(89, 144)).unwrap();
    builder.add_record(2, 100, 200000, chunk(144, 233)).unwrap();
    builder.add_unplaced_unmapped_record();
}

#[test]
fn end_to_end_index() {
    let mut builder = IndexBuilder::new(MIN_SHIFT, DEPTH, 3).unwrap();
    feed(&mut builder);
    let index = builder.build();

    assert_eq!(index.min_shift, MIN_SHIFT);
    assert_eq!(index.depth, DEPTH);
    assert_eq!(index.unplaced_unmapped_record_count, Some(1));
    assert_eq!(index.reference_sequences.len(), 3);

    let first = &index.reference_sequences[0];
    assert_eq!(first.bins, vec![Bin::new(4681, vec![chunk(55, 144)])]);
    assert_eq!(
        first.metadata,
        Some(Metadata::new(Address::from(55), Address::from(144), 0, 0))
    );

    assert_eq!(index.query(0, 0, 20), Ok(vec![chunk(55, 144)]));
    assert_eq!(index.query(2, 150, 160), Ok(vec![chunk(144, 233)]));
}

#[test]
fn building_twice_gives_equal_indexes() {
    let mut first = IndexBuilder::new(MIN_SHIFT, DEPTH, 3).unwrap();
    feed(&mut first);
    let mut second = IndexBuilder::new(MIN_SHIFT, DEPTH, 3).unwrap();
    feed(&mut second);
    assert_eq!(first.build(), second.build());
}

#[test]
fn untouched_reference_sequence_queries_empty() {
    let mut builder = IndexBuilder::new(MIN_SHIFT, DEPTH, 3).unwrap();
    feed(&mut builder);
    let index: Index = builder.build();
    assert_eq!(index.reference_sequences[1].metadata, None);
    assert_eq!(index.query(1, 0, 1000), Ok(vec![]));
}

#[test]
fn index_errors() {
    assert_eq!(IndexBuilder::new(14, 17, 1).err(), Some(IndexError::InvalidScheme));
    let mut builder = IndexBuilder::new(MIN_SHIFT, DEPTH, 1).unwrap();
    assert_eq!(
        builder.add_record(1, 0, 5, chunk(0, 1)),
        Err(IndexError::InvalidReferenceSequenceId)
    );
    assert_eq!(builder.add_record(0, 5, 5, chunk(0, 1)), Err(IndexError::InvalidInterval));
    assert_eq!(
        builder.add_record(0, 0, (1 << 29) + 1, chunk(0, 1)),
        Err(IndexError::InvalidInterval)
    );
    let index = builder.build();
    assert_eq!(index.reference_sequences[0].metadata, None);
    assert_eq!(index.query(1, 0, 5), Err(IndexError::InvalidReferenceSequenceId));
    assert_eq!(index.query(0, 7, 3), Err(IndexError::InvalidInterval));
}

#[test]
fn unplaced_count_saturates() {
    let mut builder = IndexBuilder::new(MIN_SHIFT, DEPTH, 0).unwrap();
    builder.unplaced_unmapped_record_count = u64::MAX;
    builder.add_unplaced_unmapped_record();
    assert_eq!(builder.build().unplaced_unmapped_record_count, Some(u64::MAX));
}

#[test]
fn address_parts() {
    let address = Address::from_parts(3, 7);
    assert_eq!(address.value, 3 * 65536 + 7);
    assert_eq!(address.compressed(), 3);
    assert_eq!(address.uncompressed(), 7);
    assert!(Address::minimum() < Address::maximum());
    assert!(Address::new(4) <= Address::new(4));
}

#[test]
fn query_refuses_an_invalid_scheme() {
    let index = Index {
        min_shift: 60,
        depth: 2,
        reference_sequences: vec![],
        unplaced_unmapped_record_count: None,
    };
    assert_eq!(index.query(0, 0, 1), Err(IndexError::InvalidScheme));
}
