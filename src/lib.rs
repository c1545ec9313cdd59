//! A coordinate-based binning index over block-compressed, coordinate-sorted
//! record streams, with the small byte-level codecs of the record formats
//! that feed it.
//!
//! The index: `address`, `chunk`, `binning`, `bin`, `reference_sequence`,
//! `query` and `index`. The codecs: the rest.

pub mod address;
pub mod bin;
pub mod binning;
pub mod chunk;
pub mod index;
pub mod query;
pub mod reference_sequence;

pub mod alignment_position;
pub mod genotypes;
pub mod gff_fields;
pub mod info_map;
pub mod quality_scores;
pub mod raw_value;
pub mod record_data;
pub mod reference_sequence_tag;
pub mod sample_keys;
