//! The undecoded data fields of a binary alignment record.
use vstd::prelude::*;

verus! {

/// The undecoded tag-value fields of a binary alignment record.
#[derive(Clone, Copy, Debug, PartialEq, Eq)]
pub struct Data<'a> {
    pub buf: &'a [u8],
}

impl<'a> Data<'a> {
    /// Wraps the data block of a record.
    pub fn new(buf: &'a [u8]) -> (r: Data<'a>)
        ensures
            r.buf@ == buf@,
    {
        Data { buf }
    }

    /// Whether there are no fields.
    pub fn is_empty(&self) -> (r: bool)
        ensures
            r == (self.buf@.len() == 0),
    {
        self.buf.len() == 0
    }

    /// The undecoded bytes.
    pub fn as_bytes(&self) -> (r: &'a [u8])
        ensures
            r@ == self.buf@,
    {
        self.buf
    }
}

} // verus!
