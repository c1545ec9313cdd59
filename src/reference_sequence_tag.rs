//! The standard tags of a reference sequence line in an alignment header.
use vstd::prelude::*;

verus! {

/// A standard reference sequence header tag.
#[derive(Clone, Copy, Debug, Hash, PartialEq, Eq, Structural)]
pub enum Standard {
    /// Reference sequence name (`SN`).
    Name,
    /// Reference sequence length (`LN`).
    Length,
    /// Alternate locus (`AH`).
    AlternativeLocus,
    /// Alternate reference sequence names (`AN`).
    AlternativeNames,
    /// Genome assembly ID (`AS`).
    AssemblyId,
    /// Description (`DS`).
    Description,
    /// MD5 checksum of the reference sequence (`M5`).
    Md5Checksum,
    /// Species (`SP`).
    Species,
    /// Molecule topology (`TP`).
    MoleculeTopology,
    /// URI of the reference sequence (`UR`).
    Uri,
}

/// The two characters that spell a tag.
pub open spec fn tag_bytes(tag: Standard) -> (u8, u8) {
    match tag {
        Standard::Name => (0x53, 0x4e),
        Standard::Length => (0x4c, 0x4e),
        Standard::AlternativeLocus => (0x41, 0x48),
        Standard::AlternativeNames => (0x41, 0x4e),
        Standard::AssemblyId => (0x41, 0x53),
        Standard::Description => (0x44, 0x53),
        Standard::Md5Checksum => (0x4d, 0x35),
        Standard::Species => (0x53, 0x50),
        Standard::MoleculeTopology => (0x54, 0x50),
        Standard::Uri => (0x55, 0x52),
    }
}

/// The standard tag spelled by `b0`, `b1`, if any.
pub open spec fn standard_from_bytes(b0: u8, b1: u8) -> Result<Standard, ()> {
    if tag_bytes(Standard::Name) == (b0, b1) {
        Ok(Standard::Name)
    } else if tag_bytes(Standard::Length) == (b0, b1) {
        Ok(Standard::Length)
    } else if tag_bytes(Standard::AlternativeLocus) == (b0, b1) {
        Ok(Standard::AlternativeLocus)
    } else if tag_bytes(Standard::AlternativeNames) == (b0, b1) {
        Ok(Standard::AlternativeNames)
    } else if tag_bytes(Standard::AssemblyId) == (b0, b1) {
        Ok(Standard::AssemblyId)
    } else if tag_bytes(Standard::Description) == (b0, b1) {
        Ok(Standard::Description)
    } else if tag_bytes(Standard::Md5Checksum) == (b0, b1) {
        Ok(Standard::Md5Checksum)
    } else if tag_bytes(Standard::Species) == (b0, b1) {
        Ok(Standard::Species)
    } else if tag_bytes(Standard::MoleculeTopology) == (b0, b1) {
        Ok(Standard::MoleculeTopology)
    } else if tag_bytes(Standard::Uri) == (b0, b1) {
        Ok(Standard::Uri)
    } else {
        Err(())
    }
}

impl Standard {
    /// The two characters that spell the tag.
    pub fn to_bytes(self) -> (r: [u8; 2])
        ensures
            (r@[0], r@[1]) == tag_bytes(self),
    {
        match self {
            Standard::Name => [0x53, 0x4e],
            Standard::Length => [0x4c, 0x4e],
            Standard::AlternativeLocus => [0x41, 0x48],
            Standard::AlternativeNames => [0x41, 0x4e],
            Standard::AssemblyId => [0x41, 0x53],
            Standard::Description => [0x44, 0x53],
            Standard::Md5Checksum => [0x4d, 0x35],
            Standard::Species => [0x53, 0x50],
            Standard::MoleculeTopology => [0x54, 0x50],
            Standard::Uri => [0x55, 0x52],
        }
    }

    /// The standard tag spelled by `b`, if any.
    pub fn from_bytes(b: [u8; 2]) -> (r: Result<Standard, ()>)
        ensures
            r == standard_from_bytes(b@[0], b@[1]),
            r matches Ok(tag) ==> tag_bytes(tag) == (b@[0], b@[1]),
            r is Err ==> forall|tag: Standard| tag_bytes(tag) != (b@[0], b@[1]),
    {
        let b0 = b[0];
        let b1 = b[1];
        if b0 == 0x53 && b1 == 0x4e {
            Ok(Standard::Name)
        } else if b0 == 0x4c && b1 == 0x4e {
            Ok(Standard::Length)
        } else if b0 == 0x41 && b1 == 0x48 {
            Ok(Standard::AlternativeLocus)
        } else if b0 == 0x41 && b1 == 0x4e {
            Ok(Standard::AlternativeNames)
        } else if b0 == 0x41 && b1 == 0x53 {
            Ok(Standard::AssemblyId)
        } else if b0 == 0x44 && b1 == 0x53 {
            Ok(Standard::Description)
        } else if b0 == 0x4d && b1 == 0x35 {
            Ok(Standard::Md5Checksum)
        } else if b0 == 0x53 && b1 == 0x50 {
            Ok(Standard::Species)
        } else if b0 == 0x54 && b1 == 0x50 {
            Ok(Standard::MoleculeTopology)
        } else if b0 == 0x55 && b1 == 0x52 {
            Ok(Standard::Uri)
        } else {
            Err(())
        }
    }
}

impl AsRef<[u8; 2]> for Standard {
    fn as_ref(&self) -> &[u8; 2] {
        match self {
            Standard::Name => &[0x53, 0x4e],
            Standard::Length => &[0x4c, 0x4e],
            Standard::AlternativeLocus => &[0x41, 0x48],
            Standard::AlternativeNames => &[0x41, 0x4e],
            Standard::AssemblyId => &[0x41, 0x53],
            Standard::Description => &[0x44, 0x53],
            Standard::Md5Checksum => &[0x4d, 0x35],
            Standard::Species => &[0x53, 0x50],
            Standard::MoleculeTopology => &[0x54, 0x50],
            Standard::Uri => &[0x55, 0x52],
        }
    }
}

impl TryFrom<[u8; 2]> for Standard {
    type Error = ();

    fn try_from(b: [u8; 2]) -> (r: Result<Standard, ()>) {
        Standard::from_bytes(b)
    }
}

impl vstd::std_specs::convert::TryFromSpecImpl<[u8; 2]> for Standard {
    open spec fn obeys_try_from_spec() -> bool {
        true
    }

    open spec fn try_from_spec(b: [u8; 2]) -> Result<Standard, ()> {
        standard_from_bytes(b@[0], b@[1])
    }
}

impl From<Standard> for [u8; 2] {
    fn from(tag: Standard) -> (r: [u8; 2]) {
        let r = tag.to_bytes();
        proof {
            assert(r@ =~= [tag_bytes(tag).0, tag_bytes(tag).1]@);
        }
        r
    }
}

impl vstd::std_specs::convert::FromSpecImpl<Standard> for [u8; 2] {
    open spec fn obeys_from_spec() -> bool {
        true
    }

    open spec fn from_spec(tag: Standard) -> [u8; 2] {
        [tag_bytes(tag).0, tag_bytes(tag).1]
    }
}

} // verus!
