//! The fields of a feature record, kept as one buffer and split lazily.
use vstd::prelude::*;
use vstd::string::StringSliceAdditionalSpecFns;
use vstd::utf8::{
    encode_utf8, encode_utf8_valid_utf8, is_char_boundary, is_char_boundary_iff_not_is_continuation_byte,
    is_char_boundary_start_end_of_seq, valid_utf8_split,
};

verus! {

/// The UTF-8 encoding of `chars`.
pub open spec fn spec_bytes_of(chars: Seq<char>) -> Seq<u8> {
    encode_utf8(chars)
}

/// Where each field ends in the buffer; each field starts where the one
/// before it ends, and the attributes run to the end of the buffer.
#[derive(Clone, Copy, Debug, PartialEq, Eq, Structural)]
pub struct Bounds {
    pub reference_sequence_name_end: usize,
    pub source_end: usize,
    pub type_end: usize,
    pub start_end: usize,
    pub end_end: usize,
    pub score_end: usize,
    pub strand_end: usize,
    pub phase_end: usize,
}

impl Bounds {
    /// The field ends in order.
    pub open spec fn ends(&self) -> Seq<usize> {
        seq![
            self.reference_sequence_name_end,
            self.source_end,
            self.type_end,
            self.start_end,
            self.end_end,
            self.score_end,
            self.strand_end,
            self.phase_end,
        ]
    }

    /// Where field `i` starts: the end of the field before it.
    pub open spec fn field_start(&self, i: int) -> int {
        if i == 0 {
            0
        } else {
            self.ends()[i - 1] as int
        }
    }
}

/// The fields of a feature record: one buffer and where each field ends.
#[derive(Clone, Debug, PartialEq, Eq)]
pub struct Fields {
    pub buf: String,
    pub bounds: Bounds,
}

/// Whether `bounds` split `bytes` into fields: the ends never decrease,
/// stay within the buffer and fall between characters.
pub open spec fn splits(bytes: Seq<u8>, bounds: Bounds) -> bool {
    &&& forall|i: int| 0 <= i < 8 ==> bounds.field_start(i) <= #[trigger] bounds.ends()[i] <= bytes.len()
    &&& forall|i: int| 0 <= i < 8 ==> is_char_boundary(bytes, #[trigger] bounds.ends()[i] as int)
}

/// The bytes of `s` from `a` up to `b`.
fn slice_of(s: &str, a: usize, b: usize) -> (r: &str)
    requires
        a <= b <= s.spec_bytes().len(),
        is_char_boundary(s.spec_bytes(), a as int),
        is_char_boundary(s.spec_bytes(), b as int),
    ensures
        r.spec_bytes() == s.spec_bytes().subrange(a as int, b as int),
{
    let ghost bytes = s.spec_bytes();
    let (_, rest) = s.split_at(a);
    proof {
        encode_utf8_valid_utf8(s@);
        valid_utf8_split(bytes, a as int);
        let tail = rest.spec_bytes();
        assert(tail == bytes.subrange(a as int, bytes.len() as int));
        if b == bytes.len() {
            is_char_boundary_start_end_of_seq(tail);
        } else {
            is_char_boundary_iff_not_is_continuation_byte(bytes, b as int);
            is_char_boundary_iff_not_is_continuation_byte(tail, (b - a) as int);
            assert(tail[(b - a) as int] == bytes[b as int]);
        }
    }
    let (r, _) = rest.split_at(b - a);
    proof {
        assert(r.spec_bytes() =~= bytes.subrange(a as int, b as int));
    }
    r
}

impl Fields {
    /// The invariant: the bounds split the buffer into fields.
    pub open spec fn wf(&self) -> bool {
        splits(spec_bytes_of(self.buf@), self.bounds)
    }

    /// The bytes of field `i`, for `i` below 8.
    pub open spec fn field(&self, i: int) -> Seq<u8> {
        spec_bytes_of(self.buf@).subrange(self.bounds.field_start(i), self.bounds.ends()[i] as int)
    }

    /// The bytes of the attributes field.
    pub open spec fn attributes_field(&self) -> Seq<u8> {
        spec_bytes_of(self.buf@).subrange(
            self.bounds.phase_end as int,
            spec_bytes_of(self.buf@).len() as int,
        )
    }

    /// Wraps `buf` split by `bounds`, where they do split it.
    pub fn try_new(buf: String, bounds: Bounds) -> (r: Option<Fields>)
        ensures
            r is Some <==> splits(spec_bytes_of(buf@), bounds),
            r matches Some(f) ==> f.buf@ == buf@ && f.bounds == bounds && f.wf(),
    {
        let s = buf.as_str();
        let ends = [
            bounds.reference_sequence_name_end,
            bounds.source_end,
            bounds.type_end,
            bounds.start_end,
            bounds.end_end,
            bounds.score_end,
            bounds.strand_end,
            bounds.phase_end,
        ];
        proof {
            assert(ends@ =~= bounds.ends());
        }
        let mut previous: usize = 0;
        let mut i: usize = 0;
        while i < 8
            invariant
                ends@ == bounds.ends(),
                s.spec_bytes() == spec_bytes_of(buf@),
                i <= 8,
                previous == bounds.field_start(i as int),
                forall|j: int| 0 <= j < i ==> bounds.field_start(j) <= #[trigger] bounds.ends()[j] <= s.spec_bytes().len(),
                forall|j: int| 0 <= j < i ==> is_char_boundary(s.spec_bytes(), #[trigger] bounds.ends()[j] as int),
            decreases 8 - i,
        {
            let end = ends[i];
            if end < previous || end > s.as_bytes().len() || !s.is_char_boundary(end) {
                proof {
                    assert(bounds.ends()[i as int] == end);
                    assert(!(bounds.field_start(i as int) <= bounds.ends()[i as int] <= s.spec_bytes().len())
                        || !is_char_boundary(s.spec_bytes(), bounds.ends()[i as int] as int));
                }
                return None;
            }
            previous = end;
            i = i + 1;
        }
        Some(Fields { buf, bounds })
    }

    fn field_str(&self, a: usize, b: usize) -> (r: &str)
        requires
            self.wf(),
            a <= b <= spec_bytes_of(self.buf@).len(),
            is_char_boundary(spec_bytes_of(self.buf@), a as int),
            is_char_boundary(spec_bytes_of(self.buf@), b as int),
        ensures
            r.spec_bytes() == spec_bytes_of(self.buf@).subrange(a as int, b as int),
    {
        slice_of(self.buf.as_str(), a, b)
    }

    /// The reference sequence name.
    pub fn reference_sequence_name(&self) -> (r: &str)
        requires
            self.wf(),
        ensures
            r.spec_bytes() == self.field(0),
    {
        proof {
            encode_utf8_valid_utf8(self.buf@);
            is_char_boundary_start_end_of_seq(spec_bytes_of(self.buf@));
            assert(self.bounds.ends()[0] == self.bounds.reference_sequence_name_end);
        }
        self.field_str(0, self.bounds.reference_sequence_name_end)
    }

    /// The source.
    pub fn source(&self) -> (r: &str)
        requires
            self.wf(),
        ensures
            r.spec_bytes() == self.field(1),
    {
        proof {
            assert(self.bounds.ends()[0] == self.bounds.reference_sequence_name_end);
            assert(self.bounds.ends()[1] == self.bounds.source_end);
        }
        self.field_str(self.bounds.reference_sequence_name_end, self.bounds.source_end)
    }

    /// The feature type.
    pub fn ty(&self) -> (r: &str)
        requires
            self.wf(),
        ensures
            r.spec_bytes() == self.field(2),
    {
        proof {
            assert(self.bounds.ends()[1] == self.bounds.source_end);
            assert(self.bounds.ends()[2] == self.bounds.type_end);
        }
        self.field_str(self.bounds.source_end, self.bounds.type_end)
    }

    /// The start position, as written.
    pub fn start(&self) -> (r: &str)
        requires
            self.wf(),
        ensures
            r.spec_bytes() == self.field(3),
    {
        proof {
            assert(self.bounds.ends()[2] == self.bounds.type_end);
            assert(self.bounds.ends()[3] == self.bounds.start_end);
        }
        self.field_str(self.bounds.type_end, self.bounds.start_end)
    }

    /// The end position, as written.
    pub fn end(&self) -> (r: &str)
        requires
            self.wf(),
        ensures
            r.spec_bytes() == self.field(4),
    {
        proof {
            assert(self.bounds.ends()[3] == self.bounds.start_end);
            assert(self.bounds.ends()[4] == self.bounds.end_end);
        }
        self.field_str(self.bounds.start_end, self.bounds.end_end)
    }

    /// The score, as written.
    pub fn score(&self) -> (r: &str)
        requires
            self.wf(),
        ensures
            r.spec_bytes() == self.field(5),
    {
        proof {
            assert(self.bounds.ends()[4] == self.bounds.end_end);
            assert(self.bounds.ends()[5] == self.bounds.score_end);
        }
        self.field_str(self.bounds.end_end, self.bounds.score_end)
    }

    /// The strand, as written.
    pub fn strand(&self) -> (r: &str)
        requires
            self.wf(),
        ensures
            r.spec_bytes() == self.field(6),
    {
        proof {
            assert(self.bounds.ends()[5] == self.bounds.score_end);
            assert(self.bounds.ends()[6] == self.bounds.strand_end);
        }
        self.field_str(self.bounds.score_end, self.bounds.strand_end)
    }

    /// The phase, as written.
    pub fn phase(&self) -> (r: &str)
        requires
            self.wf(),
        ensures
            r.spec_bytes() == self.field(7),
    {
        proof {
            assert(self.bounds.ends()[6] == self.bounds.strand_end);
            assert(self.bounds.ends()[7] == self.bounds.phase_end);
        }
        self.field_str(self.bounds.strand_end, self.bounds.phase_end)
    }

    /// The attributes; a lone `.`, which marks them missing, gives the empty
    /// string.
    pub fn attributes(&self) -> (r: &str)
        requires
            self.wf(),
        ensures
            self.attributes_field() == seq![0x2eu8] ==> r.spec_bytes() == Seq::<u8>::empty(),
            self.attributes_field() != seq![0x2eu8] ==> r.spec_bytes() == self.attributes_field(),
    {
        proof {
            encode_utf8_valid_utf8(self.buf@);
            is_char_boundary_start_end_of_seq(spec_bytes_of(self.buf@));
            assert(self.bounds.ends()[7] == self.bounds.phase_end);
            assert(self.bounds.field_start(7) <= self.bounds.ends()[7] <= spec_bytes_of(self.buf@).len());
            assert(is_char_boundary(spec_bytes_of(self.buf@), self.bounds.ends()[7] as int));
        }
        let s = self.field_str(self.bounds.phase_end, self.buf.as_str().as_bytes().len());
        let b = s.as_bytes();
        if b.len() == 1 && b[0] == 0x2e {
            proof {
                assert(b@ =~= seq![0x2eu8]);
                reveal_strlit("");
            }
            ""
        } else {
            proof {
                assert(b@ == self.attributes_field());
                if self.attributes_field() == seq![0x2eu8] {
                    assert(b@.len() == 1);
                    assert(b@[0] == 0x2eu8);
                }
            }
            s
        }
    }
}

} // verus!
