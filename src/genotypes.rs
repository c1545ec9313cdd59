//! The raw genotype block of a binary variant record.
use vstd::prelude::*;

verus! {

/// The undecoded genotype fields of a binary variant record: `format_count`
/// fields for each of `sample_count` samples.
#[derive(Clone, Debug, Default, PartialEq, Eq)]
pub struct Genotypes<'a> {
    pub buf: &'a [u8],
    pub sample_count: usize,
    pub format_count: usize,
}

impl<'a> Genotypes<'a> {
    /// Wraps a genotype block.
    pub fn new(buf: &'a [u8], sample_count: usize, format_count: usize) -> (r: Genotypes<'a>)
        ensures
            r.buf@ == buf@,
            r.sample_count == sample_count,
            r.format_count == format_count,
    {
        Genotypes { buf, sample_count, format_count }
    }

    /// The number of samples.
    pub fn len(&self) -> (r: usize)
        ensures
            r == self.sample_count,
    {
        self.sample_count
    }

    /// Whether there are no samples.
    pub fn is_empty(&self) -> (r: bool)
        ensures
            r == (self.sample_count == 0),
    {
        self.len() == 0
    }

    /// The number of fields per sample.
    pub fn format_count(&self) -> (r: usize)
        ensures
            r == self.format_count,
    {
        self.format_count
    }

    /// The undecoded bytes.
    pub fn as_bytes(&self) -> (r: &'a [u8])
        ensures
            r@ == self.buf@,
    {
        self.buf
    }
}

} // verus!
