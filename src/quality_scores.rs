//! Phred quality scores of an alignment record, parsed from their text form.
use vstd::prelude::*;

verus! {

/// The largest valid quality score.
pub const MAX_SCORE: u8 = 93;

/// The character that stands for a score of zero.
pub const OFFSET: u8 = 0x21;

/// Whether every score is at most the largest valid score.
pub open spec fn all_valid(scores: Seq<u8>) -> bool {
    forall|i: int| 0 <= i < scores.len() ==> #[trigger] scores[i] <= MAX_SCORE
}

/// The score that character `b` stands for, where it stands for one.
pub open spec fn score_of(b: u8) -> u8 {
    (b - OFFSET) as u8
}

/// Whether character `b` stands for a valid score.
pub open spec fn is_score_char(b: u8) -> bool {
    OFFSET <= b <= OFFSET + MAX_SCORE
}

/// A list of quality scores, each at most the largest valid score.
#[derive(Clone, Debug, Default, PartialEq, Eq)]
pub struct QualityScores {
    pub scores: Vec<u8>,
}

/// Why a raw quality score was refused.
#[derive(Clone, Copy, Debug, PartialEq, Eq, Structural)]
pub enum ScoreError {
    /// The value is not a valid score.
    Invalid(u32),
}

/// Why raw quality scores could not be parsed.
#[derive(Clone, Copy, Debug, PartialEq, Eq, Structural)]
pub enum ParseError {
    /// The input is empty.
    Empty,
    /// The length does not match the sequence length.
    LengthMismatch {
        /// The actual length.
        actual: usize,
        /// The expected length.
        expected: usize,
    },
    /// A score is invalid.
    InvalidScore(ScoreError),
}

impl QualityScores {
    /// The invariant: every score is valid.
    pub open spec fn wf(&self) -> bool {
        all_valid(self.scores@)
    }

    /// Creates an empty list.
    pub fn new() -> (r: QualityScores)
        ensures
            r.wf(),
            r.scores@ == Seq::<u8>::empty(),
    {
        QualityScores { scores: Vec::new() }
    }

    /// Wraps `scores` where every one of them is valid.
    pub fn try_from(scores: Vec<u8>) -> (r: Result<QualityScores, ScoreError>)
        ensures
            r is Ok <==> all_valid(scores@),
            r matches Ok(q) ==> q.wf() && q.scores@ == scores@,
            r matches Err(e) ==> exists|i: int|
                0 <= i < scores@.len() && scores@[i] > MAX_SCORE && e == ScoreError::Invalid(
                    scores@[i] as u32,
                ),
    {
        let n = scores.len();
        let mut i: usize = 0;
        while i < n
            invariant
                n == scores@.len(),
                i <= n,
                forall|j: int| 0 <= j < i ==> #[trigger] scores@[j] <= MAX_SCORE,
            decreases n - i,
        {
            if !is_valid_score(scores[i]) {
                return Err(ScoreError::Invalid(scores[i] as u32));
            }
            i = i + 1;
        }
        Ok(QualityScores { scores })
    }

    /// The number of scores.
    pub fn len(&self) -> (r: usize)
        ensures
            r == self.scores@.len(),
    {
        self.scores.len()
    }

    /// Whether there are no scores.
    pub fn is_empty(&self) -> (r: bool)
        ensures
            r == (self.scores@.len() == 0),
    {
        self.scores.len() == 0
    }

    /// Removes every score.
    pub fn clear(&mut self)
        ensures
            final(self).wf(),
            final(self).scores@ == Seq::<u8>::empty(),
    {
        self.scores.clear();
    }

    /// The scores.
    pub fn as_slice(&self) -> (r: &[u8])
        ensures
            r@ == self.scores@,
    {
        self.scores.as_slice()
    }
}

/// Whether `n` is a valid score.
pub fn is_valid_score(n: u8) -> (r: bool)
    ensures
        r == (n <= MAX_SCORE),
{
    n <= MAX_SCORE
}

/// Parses the text form of `sequence_len` quality scores, one character
/// each, and appends them to `quality_scores`.
///
/// Empty input and input whose length is not `sequence_len` are refused and
/// leave the scores as they were. A character that stands for no valid score
/// is refused too, and leaves the list empty.
pub fn parse_quality_scores(src: &[u8], sequence_len: usize, quality_scores: &mut QualityScores) -> (r: Result<(), ParseError>)
    requires
        old(quality_scores).wf(),
    ensures
        final(quality_scores).wf(),
        src@.len() == 0 ==> r == Err::<(), ParseError>(ParseError::Empty) && *final(quality_scores) == *old(quality_scores),
        src@.len() > 0 && src@.len() != sequence_len ==> r == Err::<(), ParseError>(
            ParseError::LengthMismatch { actual: src@.len() as usize, expected: sequence_len },
        ) && *final(quality_scores) == *old(quality_scores),
        src@.len() > 0 && src@.len() == sequence_len && (forall|i: int| 0 <= i < src@.len() ==> is_score_char(#[trigger] src@[i]))
            ==> r is Ok && final(quality_scores).scores@ == old(quality_scores).scores@ + src@.map_values(|b: u8| score_of(b)),
        src@.len() > 0 && src@.len() == sequence_len && !(forall|i: int| 0 <= i < src@.len() ==> is_score_char(#[trigger] src@[i]))
            ==> (exists|i: int|
                0 <= i < src@.len() && !is_score_char(src@[i]) && (forall|j: int| 0 <= j < i ==> is_score_char(#[trigger] src@[j]))
                    && r == Err::<(), ParseError>(ParseError::InvalidScore(ScoreError::Invalid(src@[i] as u32))))
                && final(quality_scores).scores@ == Seq::<u8>::empty(),
{
    if src.len() == 0 {
        return Err(ParseError::Empty);
    } else if src.len() != sequence_len {
        return Err(ParseError::LengthMismatch { actual: src.len(), expected: sequence_len });
    }
    let mut scores: Vec<u8> = Vec::new();
    std::mem::swap(&mut scores, &mut quality_scores.scores);
    let ghost before = scores@;
    let n = src.len();
    let mut i: usize = 0;
    while i < n
        invariant
            n == src@.len(),
            n == sequence_len,
            i <= n,
            all_valid(before),
            quality_scores.scores@ == Seq::<u8>::empty(),
            scores@ == before + src@.take(i as int).map_values(|b: u8| score_of(b)),
            forall|j: int| 0 <= j < i ==> is_score_char(#[trigger] src@[j]),
        decreases n - i,
    {
        let b = src[i];
        if !(OFFSET <= b && is_valid_score(b.wrapping_sub(OFFSET))) {
            return Err(ParseError::InvalidScore(ScoreError::Invalid(b as u32)));
        }
        scores.push(b - OFFSET);
        proof {
            assert(src@.take(i + 1).map_values(|b: u8| score_of(b)) =~= src@.take(i as int).map_values(|b: u8| score_of(b)).push(score_of(b)));
        }
        i = i + 1;
    }
    proof {
        assert(src@.take(n as int) =~= src@);
    }
    quality_scores.scores = scores;
    Ok(())
}

} // verus!
