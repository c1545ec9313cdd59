use binning_index::genotypes::Genotypes;
use binning_index::gff_fields::{Bounds, Fields};
use binning_index::quality_scores::{parse_quality_scores, ParseError, QualityScores, ScoreError};
use binning_index::record_data::Data;
use binning_index::reference_sequence_tag::Standard;
use binning_index::sample_keys::{is_valid, write_key, write_keys, WriteError};

const LENGTH: usize = 2;

#[test]
fn test_as_ref_u8_2_array_for_standard() {
    assert_eq!(Standard::Name.as_ref(), &[b'S', b'N']);
    assert_eq!(Standard::Length.as_ref(), &[b'L', b'N']);
    assert_eq!(Standard::AlternativeLocus.as_ref(), &[b'A', b'H']);
    assert_eq!(Standard::AlternativeNames.as_ref(), &[b'A', b'N']);
    assert_eq!(Standard::AssemblyId.as_ref(), &[b'A', b'S']);
    assert_eq!(Standard::Description.as_ref(), &[b'D', b'S']);
    assert_eq!(Standard::Md5Checksum.as_ref(), &[b'M', b'5']);
    assert_eq!(Standard::Species.as_ref(), &[b'S', b'P']);
    assert_eq!(Standard::MoleculeTopology.as_ref(), &[b'T', b'P']);
    assert_eq!(Standard::Uri.as_ref(), &[b'U', b'R']);
}

#[test]
fn test_from_str() {
    assert_eq!(Standard::try_from([b'S', b'N']), Ok(Standard::Name));
    assert_eq!(Standard::try_from([b'L', b'N']), Ok(Standard::Length));
    assert_eq!(Standard::try_from([b'A', b'H']), Ok(Standard::AlternativeLocus));
    assert_eq!(Standard::try_from([b'A', b'N']), Ok(Standard::AlternativeNames));
    assert_eq!(Standard::try_from([b'A', b'S']), Ok(Standard::AssemblyId));
    assert_eq!(Standard::try_from([b'D', b'S']), Ok(Standard::Description));
    assert_eq!(Standard::try_from([b'M', b'5']), Ok(Standard::Md5Checksum));
    assert_eq!(Standard::try_from([b'S', b'P']), Ok(Standard::Species));
    assert_eq!(Standard::try_from([b'T', b'P']), Ok(Standard::MoleculeTopology));
    assert_eq!(Standard::try_from([b'U', b'R']), Ok(Standard::Uri));

    assert_eq!(Standard::try_from([b'N', b'D']), Err(()));
}

#[test]
fn test_from_standard_for_u8_2_array() {
    assert_eq!(<[u8; LENGTH]>::from(Standard::Name), [b'S', b'N']);
    assert_eq!(<[u8; LENGTH]>::from(Standard::Length), [b'L', b'N']);
    assert_eq!(<[u8; LENGTH]>::from(Standard::AlternativeLocus), [b'A', b'H']);
    assert_eq!(<[u8; LENGTH]>::from(Standard::AlternativeNames), [b'A', b'N']);
    assert_eq!(<[u8; LENGTH]>::from(Standard::AssemblyId), [b'A', b'S']);
    assert_eq!(<[u8; LENGTH]>::from(Standard::Description), [b'D', b'S']);
    assert_eq!(<[u8; LENGTH]>::from(Standard::Md5Checksum), [b'M', b'5']);
    assert_eq!(<[u8; LENGTH]>::from(Standard::Species), [b'S', b'P']);
    assert_eq!(<[u8; LENGTH]>::from(Standard::MoleculeTopology), [b'T', b'P']);
    assert_eq!(<[u8; LENGTH]>::from(Standard::Uri), [b'U', b'R']);
}

#[test]
fn tag_bytes_round_trip() {
    for tag in [Standard::Name, Standard::Md5Checksum, Standard::Uri] {
        assert_eq!(Standard::from_bytes(tag.to_bytes()), Ok(tag));
    }
    assert_eq!(Standard::from_bytes([b's', b'n']), Err(()));
}

#[test]
fn test_parse_quality_scores() {
    let mut quality_scores = QualityScores::default();

    quality_scores.clear();
    assert_eq!(parse_quality_scores(b"NDLS", 4, &mut quality_scores), Ok(()));
    let expected = QualityScores::try_from(vec![45, 35, 43, 50]).unwrap();
    assert_eq!(quality_scores, expected);

    quality_scores.clear();
    assert_eq!(
        parse_quality_scores(b"", 0, &mut quality_scores),
        Err(ParseError::Empty)
    );

    quality_scores.clear();
    assert_eq!(
        parse_quality_scores(b"NDLS", 2, &mut quality_scores),
        Err(ParseError::LengthMismatch {
            actual: 4,
            expected: 2
        })
    );

    quality_scores.clear();
    assert!(matches!(
        parse_quality_scores(&[0x07], 1, &mut quality_scores),
        Err(ParseError::InvalidScore(_))
    ));
}

#[test]
fn quality_scores_append_and_report_the_bad_character() {
    let mut quality_scores = QualityScores::try_from(vec![1]).unwrap();
    assert_eq!(parse_quality_scores(b"!~", 2, &mut quality_scores), Ok(()));
    assert_eq!(quality_scores.as_slice(), &[1, 0, 93]);

    assert_eq!(
        parse_quality_scores(b"A\x7fB", 3, &mut quality_scores),
        Err(ParseError::InvalidScore(ScoreError::Invalid(0x7f)))
    );
    assert!(quality_scores.is_empty());

    assert_eq!(QualityScores::try_from(vec![3, 94]), Err(ScoreError::Invalid(94)));
}

#[test]
fn test_write_keys() {
    let mut buf = Vec::new();

    buf.clear();
    assert_eq!(write_keys(&mut buf, &["GT"]), Ok(()));
    assert_eq!(buf, b"GT");

    buf.clear();
    assert_eq!(write_keys(&mut buf, &["GT", "GQ"]), Ok(()));
    assert_eq!(buf, b"GT:GQ");

    buf.clear();
    assert_eq!(write_keys(&mut buf, &["GQ"]), Ok(()));
    assert_eq!(buf, b"GQ");

    buf.clear();
    assert!(matches!(
        write_keys(&mut buf, &["GQ", "GT"]),
        Err(WriteError::GenotypeNotFirst)
    ));
}

#[test]
fn test_is_valid() {
    assert!(is_valid("GT"));
    assert!(is_valid("PSL"));

    assert!(!is_valid(""));
    assert!(!is_valid("G T"));
    assert!(!is_valid("1000G"));
}

#[test]
fn keys_of_the_wrong_form_are_refused() {
    let mut buf = b"x".to_vec();
    assert_eq!(write_keys(&mut buf, &["GT", "1A", "GT"]), Err(WriteError::InvalidKey));
    assert_eq!(buf, b"x");
    assert_eq!(write_keys(&mut buf, &[]), Ok(()));
    assert_eq!(buf, b"x");
    assert_eq!(write_key(&mut buf, "_a.1"), Ok(()));
    assert_eq!(buf, b"x_a.1");
    assert_eq!(write_key(&mut buf, "é"), Err(WriteError::InvalidKey));
    assert!(is_valid("_x.9"));
    assert!(!is_valid("x-y"));
}

#[test]
fn genotypes_counts() {
    let genotypes = Genotypes::default();
    assert_eq!(genotypes.len(), 0);
    assert!(genotypes.is_empty());
    assert_eq!(genotypes.format_count(), 0);

    let genotypes = Genotypes::new(&[1, 2, 3], 2, 5);
    assert_eq!(genotypes.len(), 2);
    assert!(!genotypes.is_empty());
    assert_eq!(genotypes.format_count(), 5);
    assert_eq!(genotypes.as_bytes(), &[1, 2, 3]);
}

#[test]
fn data_is_empty() {
    assert!(Data::new(&[]).is_empty());
    let data = Data::new(&[b'N', b'H', b'C', 0x01]);
    assert!(!data.is_empty());
    assert_eq!(data.as_bytes().len(), 4);
}

fn fields(buf: &str) -> Fields {
    Fields::try_new(
        buf.to_string(),
        Bounds {
            reference_sequence_name_end: 4,
            source_end: 7,
            type_end: 11,
            start_end: 12,
            end_end: 15,
            score_end: 16,
            strand_end: 17,
            phase_end: 18,
        },
    )
    .unwrap()
}

#[test]
fn gff_fields_split_the_buffer() {
    let f = fields("sq0.NDLgene813.+0ID=a");
    assert_eq!(f.reference_sequence_name(), "sq0.");
    assert_eq!(f.source(), "NDL");
    assert_eq!(f.ty(), "gene");
    assert_eq!(f.start(), "8");
    assert_eq!(f.end(), "13.");
    assert_eq!(f.score(), "+");
    assert_eq!(f.strand(), "0");
    assert_eq!(f.phase(), "I");
    assert_eq!(f.attributes(), "D=a");

    let f = fields("sq0.NDLgene813.+0I..");
    assert_eq!(f.attributes(), "..");
    let f = fields("sq0.NDLgene813.+0I.");
    assert_eq!(f.attributes(), "");
}

#[test]
fn gff_bounds_are_checked() {
    let bounds = Bounds {
        reference_sequence_name_end: 1,
        source_end: 2,
        type_end: 3,
        start_end: 4,
        end_end: 5,
        score_end: 6,
        strand_end: 7,
        phase_end: 8,
    };
    assert!(Fields::try_new("...11....".to_string(), bounds).is_some());
    assert!(Fields::try_new("...11..".to_string(), bounds).is_none());
    let backwards = Bounds { source_end: 0, ..bounds };
    assert!(Fields::try_new("...11....".to_string(), backwards).is_none());
    let split_char = Bounds { reference_sequence_name_end: 1, ..bounds };
    assert!(Fields::try_new("é..11....".to_string(), split_char).is_none());
}
