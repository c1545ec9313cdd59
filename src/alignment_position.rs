//! The position field of an alignment record, written as text.
use vstd::prelude::*;

verus! {

/// The largest position the text form allows.
pub const MAX_POSITION_VALUE: usize = 0x7fff_ffff;

/// Why a position could not be written.
#[derive(Clone, Copy, Debug, PartialEq, Eq, Structural)]
pub enum WritePositionError {
    /// The position is past the largest position allowed.
    Invalid(usize),
}

/// The ASCII decimal text of `n`, without leading zeros.
pub open spec fn decimal_bytes(n: nat) -> Seq<u8>
    decreases n,
{
    if n < 10 {
        seq![(0x30 + n) as u8]
    } else {
        decimal_bytes(n / 10).push((0x30 + n % 10) as u8)
    }
}

/// Appends the ASCII decimal text of `n`.
pub fn write_usize(buf: &mut Vec<u8>, n: usize)
    ensures
        final(buf)@ == old(buf)@ + decimal_bytes(n as nat),
    decreases n,
{
    if n < 10 {
        buf.push(0x30 + n as u8);
        proof {
            assert(buf@ =~= old(buf)@ + decimal_bytes(n as nat));
        }
    } else {
        write_usize(buf, n / 10);
        buf.push(0x30 + (n % 10) as u8);
        proof {
            assert(buf@ =~= old(buf)@ + decimal_bytes(n as nat));
        }
    }
}

/// Appends a one-based position; a missing position is written as `0`.
/// Positions past the largest allowed are refused and leave `buf` as it was.
pub fn write_position(buf: &mut Vec<u8>, position: Option<usize>) -> (r: Result<(), WritePositionError>)
    ensures
        ({
            let n = match position {
                Some(p) => p,
                None => 0usize,
            };
            &&& r is Ok <==> n <= MAX_POSITION_VALUE
            &&& r is Ok ==> final(buf)@ == old(buf)@ + decimal_bytes(n as nat)
            &&& r matches Err(e) ==> e == WritePositionError::Invalid(n) && final(buf)@ == old(buf)@
        }),
{
    let n = match position {
        Some(p) => p,
        None => 0,
    };
    if n <= MAX_POSITION_VALUE {
        write_usize(buf, n);
        Ok(())
    } else {
        Err(WritePositionError::Invalid(n))
    }
}

} // verus!
