//! The keys of the genotype fields of a variant record, written as the
//! colon-separated text of the format column.
use vstd::prelude::*;
use vstd::string::StringSliceAdditionalSpecFns;

verus! {

/// Why keys could not be written.
#[derive(Clone, Copy, Debug, PartialEq, Eq, Structural)]
pub enum WriteError {
    /// The genotype key `GT` stands anywhere but first.
    GenotypeNotFirst,
    /// A key does not have the form `[A-Za-z_][0-9A-Za-z_.]*`.
    InvalidKey,
}

/// Whether `b` is an ASCII letter.
pub open spec fn is_alphabetic(b: u8) -> bool {
    (0x41 <= b <= 0x5a) || (0x61 <= b <= 0x7a)
}

/// Whether `b` is an ASCII digit.
pub open spec fn is_digit(b: u8) -> bool {
    0x30 <= b <= 0x39
}

/// Whether `b` may follow the first character of a key.
pub open spec fn is_key_char(b: u8) -> bool {
    is_alphabetic(b) || is_digit(b) || b == 0x5f || b == 0x2e
}

/// Whether the UTF-8 bytes `s` spell a key: a letter or underscore, then
/// letters, digits, underscores and dots. A character outside ASCII never
/// matches, whichever of its bytes is looked at.
pub open spec fn valid_key(s: Seq<u8>) -> bool {
    &&& s.len() > 0
    &&& (is_alphabetic(s[0]) || s[0] == 0x5f)
    &&& forall|i: int| 1 <= i < s.len() ==> is_key_char(#[trigger] s[i])
}

/// Whether the bytes `s` spell the genotype key `GT`.
pub open spec fn is_genotype_key(s: Seq<u8>) -> bool {
    s == seq![0x47u8, 0x54u8]
}

/// Whether the key at position `i` of `keys` is refused.
pub open spec fn refused(keys: Seq<Seq<u8>>, i: int) -> bool {
    (i > 0 && is_genotype_key(keys[i])) || !valid_key(keys[i])
}

/// The error for the refused key at position `i`.
pub open spec fn error_at(keys: Seq<Seq<u8>>, i: int) -> WriteError {
    if i > 0 && is_genotype_key(keys[i]) {
        WriteError::GenotypeNotFirst
    } else {
        WriteError::InvalidKey
    }
}

/// The keys joined with colons.
pub open spec fn joined(keys: Seq<Seq<u8>>) -> Seq<u8>
    decreases keys.len(),
{
    if keys.len() == 0 {
        Seq::empty()
    } else if keys.len() == 1 {
        keys[0]
    } else {
        joined(keys.drop_last()) + seq![0x3au8] + keys.last()
    }
}

/// The bytes of each key.
pub open spec fn key_bytes(keys: Seq<&str>) -> Seq<Seq<u8>> {
    keys.map_values(|k: &str| k.spec_bytes())
}

/// Returns whether `s` has the form of a genotype field key,
/// `[A-Za-z_][0-9A-Za-z_.]*`.
pub fn is_valid(s: &str) -> (r: bool)
    ensures
        r == valid_key(s.spec_bytes()),
{
    let b = s.as_bytes();
    let n = b.len();
    if n == 0 {
        return false;
    }
    let first = b[0];
    if !((0x41 <= first && first <= 0x5a) || (0x61 <= first && first <= 0x7a) || first == 0x5f) {
        return false;
    }
    let mut i: usize = 1;
    while i < n
        invariant
            n == b@.len(),
            b@ == s.spec_bytes(),
            1 <= i <= n,
            forall|j: int| 1 <= j < i ==> is_key_char(#[trigger] b@[j]),
        decreases n - i,
    {
        let c = b[i];
        if !((0x41 <= c && c <= 0x5a) || (0x61 <= c && c <= 0x7a) || (0x30 <= c && c <= 0x39) || c == 0x5f || c == 0x2e) {
            return false;
        }
        i = i + 1;
    }
    true
}

fn is_genotype(s: &str) -> (r: bool)
    ensures
        r == is_genotype_key(s.spec_bytes()),
{
    let b = s.as_bytes();
    if b.len() == 2 && b[0] == 0x47 && b[1] == 0x54 {
        proof {
            assert(b@ =~= seq![0x47u8, 0x54u8]);
        }
        true
    } else {
        false
    }
}

fn append_bytes(buf: &mut Vec<u8>, s: &str)
    ensures
        final(buf)@ == old(buf)@ + s.spec_bytes(),
{
    let b = s.as_bytes();
    let n = b.len();
    let mut i: usize = 0;
    while i < n
        invariant
            n == b@.len(),
            b@ == s.spec_bytes(),
            i <= n,
            buf@ == old(buf)@ + b@.take(i as int),
        decreases n - i,
    {
        buf.push(b[i]);
        proof {
            assert(b@.take(i + 1) =~= b@.take(i as int).push(b@[i as int]));
        }
        i = i + 1;
    }
    proof {
        assert(b@.take(n as int) =~= b@);
    }
}

/// Appends `key` to `buf` where it is a valid key.
pub fn write_key(buf: &mut Vec<u8>, key: &str) -> (r: Result<(), WriteError>)
    ensures
        r is Ok <==> valid_key(key.spec_bytes()),
        r is Ok ==> final(buf)@ == old(buf)@ + key.spec_bytes(),
        r matches Err(e) ==> e == WriteError::InvalidKey && final(buf)@ == old(buf)@,
{
    if is_valid(key) {
        append_bytes(buf, key);
        Ok(())
    } else {
        Err(WriteError::InvalidKey)
    }
}

/// Appends `keys`, separated by colons, to `buf`.
///
/// The first key refused decides the error: `GT` anywhere but first, or a
/// key of the wrong form. Where a key is refused, `buf` is left as it was.
pub fn write_keys(buf: &mut Vec<u8>, keys: &[&str]) -> (r: Result<(), WriteError>)
    ensures
        r is Ok <==> forall|i: int| 0 <= i < keys@.len() ==> !refused(key_bytes(keys@), i),
        r is Ok ==> final(buf)@ == old(buf)@ + joined(key_bytes(keys@)),
        r matches Err(e) ==> final(buf)@ == old(buf)@ && exists|i: int|
            0 <= i < keys@.len() && refused(key_bytes(keys@), i) && (forall|j: int|
                0 <= j < i ==> !refused(key_bytes(keys@), j)) && e == error_at(key_bytes(keys@), i),
{
    let ghost ks = key_bytes(keys@);
    let n = keys.len();
    let mut i: usize = 0;
    while i < n
        invariant
            n == keys@.len(),
            ks == key_bytes(keys@),
            i <= n,
            forall|j: int| 0 <= j < i ==> !refused(ks, j),
        decreases n - i,
    {
        let key = keys[i];
        proof {
            assert(ks[i as int] == key.spec_bytes());
        }
        if i > 0 && is_genotype(key) {
            proof {
                assert(refused(ks, i as int));
            }
            return Err(WriteError::GenotypeNotFirst);
        }
        if !is_valid(key) {
            proof {
                assert(refused(ks, i as int));
            }
            return Err(WriteError::InvalidKey);
        }
        i = i + 1;
    }
    let ghost start = buf@;
    let mut i: usize = 0;
    while i < n
        invariant
            n == keys@.len(),
            ks == key_bytes(keys@),
            i <= n,
            buf@ == start + joined(ks.take(i as int)),
        decreases n - i,
    {
        let key = keys[i];
        proof {
            assert(ks[i as int] == key.spec_bytes());
            assert(ks.take(i + 1).drop_last() =~= ks.take(i as int));
        }
        if i > 0 {
            buf.push(0x3a);
            append_bytes(buf, key);
            proof {
                assert(buf@ =~= start + joined(ks.take(i + 1)));
            }
        } else {
            append_bytes(buf, key);
            proof {
                assert(buf@ =~= start + joined(ks.take(i + 1)));
            }
        }
        i = i + 1;
    }
    proof {
        assert(ks.take(n as int) =~= ks);
    }
    Ok(())
}

} // verus!
