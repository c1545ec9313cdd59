use binning_index::alignment_position::{
    write_position, write_usize, WritePositionError, MAX_POSITION_VALUE,
};

#[test]
fn test_write_position() {
    fn t(buf: &mut Vec<u8>, position: Option<usize>, expected: &[u8]) {
        buf.clear();
        assert_eq!(write_position(buf, position), Ok(()));
        assert_eq!(buf, expected);
    }

    let mut buf = Vec::new();

    t(&mut buf, None, b"0");
    t(&mut buf, Some(13), b"13");

    buf.clear();
    assert!(matches!(
        write_position(&mut buf, Some(MAX_POSITION_VALUE + 1)),
        Err(WritePositionError::Invalid(_)),
    ));
}

#[test]
fn position_limits_and_digits() {
    let mut buf = b"x".to_vec();
    assert_eq!(write_position(&mut buf, Some(MAX_POSITION_VALUE)), Ok(()));
    assert_eq!(buf, b"x2147483647");
    assert_eq!(
        write_position(&mut buf, Some(usize::MAX)),
        Err(WritePositionError::Invalid(usize::MAX))
    );
    assert_eq!(buf, b"x2147483647");

    let mut buf = Vec::new();
    write_usize(&mut buf, 1090);
    assert_eq!(buf, b"1090");
}
