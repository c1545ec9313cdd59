use binning_index::info_map::{InfoMap, Number, Type};

#[test]
fn info_test_fmt() {
    let map = InfoMap::new(Number::Count(1), Type::Integer, "Number of samples with data");
    let expected = r#",Number=1,Type=Integer,Description="Number of samples with data""#;
    assert_eq!(map.to_string(), expected);
}

#[test]
fn info_text_with_index_and_escapes() {
    let mut map = InfoMap::new(Number::AlternateBases, Type::Float, r#"say "hi" \ bye"#);
    map.set_idx(Some(120));
    assert_eq!(
        map.to_string(),
        r#",Number=A,Type=Float,Description="say \"hi\" \\ bye",IDX=120"#
    );
    assert_eq!(map.idx(), Some(120));
    assert_eq!(map.number(), Number::AlternateBases);
    assert_eq!(map.ty(), Type::Float);
    assert_eq!(map.description(), r#"say "hi" \ bye"#);

    let map = InfoMap::new(Number::Unknown, Type::String, "");
    assert_eq!(map.to_string(), r#",Number=.,Type=String,Description="""#);
    let map = InfoMap::new(Number::Count(10), Type::Flag, "é");
    assert_eq!(map.to_string(), r#",Number=10,Type=Flag,Description="é""#);
    let map = InfoMap::new(Number::Samples, Type::Character, "x");
    assert_eq!(map.to_string(), r#",Number=G,Type=Character,Description="x""#);
    let map = InfoMap::new(Number::ReferenceAlternateBases, Type::Integer, "x");
    assert_eq!(map.to_string(), r#",Number=R,Type=Integer,Description="x""#);
}
