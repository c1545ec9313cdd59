use binning_index::raw_value::{
    read_i16, read_i16s, read_i32, read_i32s, read_i8, read_i8s, read_string, DecodeError,
};

#[test]
fn test_read_i8() {
    let mut src = &[0x00][..];
    assert_eq!(read_i8(&mut src), Ok(0));

    let mut src = &[][..];
    assert_eq!(read_i8(&mut src), Err(DecodeError::UnexpectedEof));
}

#[test]
fn test_read_i8s() {
    let mut src = &[0x00][..];
    assert_eq!(read_i8s(&mut src, 1), Ok(vec![0]));

    let mut src = &[][..];
    assert_eq!(read_i8s(&mut src, 1), Err(DecodeError::UnexpectedEof));
}

#[test]
fn test_read_i16() {
    let mut src = &[0x00, 0x00][..];
    assert_eq!(read_i16(&mut src), Ok(0));

    let mut src = &[][..];
    assert_eq!(read_i16(&mut src), Err(DecodeError::UnexpectedEof));
}

#[test]
fn test_read_i16s() {
    let mut src = &[0x00, 0x00][..];
    assert_eq!(read_i16s(&mut src, 1), Ok(vec![0]));

    let mut src = &[][..];
    assert_eq!(read_i16s(&mut src, 1), Err(DecodeError::UnexpectedEof));
}

#[test]
fn test_read_i32() {
    let mut src = &[0x00, 0x00, 0x00, 0x00][..];
    assert_eq!(read_i32(&mut src), Ok(0));

    let mut src = &[][..];
    assert_eq!(read_i32(&mut src), Err(DecodeError::UnexpectedEof));
}

#[test]
fn test_read_i32s() {
    let mut src = &[0x00, 0x00, 0x00, 0x00][..];
    assert_eq!(read_i32s(&mut src, 1), Ok(vec![0]));

    let mut src = &[][..];
    assert_eq!(read_i32s(&mut src, 1), Err(DecodeError::UnexpectedEof));
}

#[test]
fn test_read_string() {
    let mut src = &[b'n', b'd', b'l', b's'][..];
    assert_eq!(read_string(&mut src, 4), Ok(&b"ndls"[..]));

    let mut src = &[][..];
    assert_eq!(read_string(&mut src, 4), Err(DecodeError::UnexpectedEof));
}

#[test]
fn reads_signed_little_endian_values_and_advances() {
    let mut src = &[0xff, 0x34, 0x12, 0xfe, 0xff, 0x78, 0x56, 0x34, 0x12, 0x00, 0x00, 0x00, 0x80, 0xaa][..];
    assert_eq!(read_i8(&mut src), Ok(-1));
    assert_eq!(read_i16(&mut src), Ok(0x1234));
    assert_eq!(read_i16(&mut src), Ok(-2));
    assert_eq!(read_i32(&mut src), Ok(0x12345678));
    assert_eq!(read_i32(&mut src), Ok(i32::MIN));
    assert_eq!(src, &[0xaa][..]);
    assert_eq!(read_i16(&mut src), Err(DecodeError::UnexpectedEof));
    assert_eq!(src, &[0xaa][..]);
}

#[test]
fn reads_arrays_and_leaves_the_rest() {
    let mut src = &[0x80, 0x7f, 0x01, 0x02][..];
    assert_eq!(read_i8s(&mut src, 2), Ok(vec![-128, 127]));
    assert_eq!(src, &[0x01, 0x02][..]);

    let mut src = &[0x01, 0x00, 0x00, 0x80, 0x09][..];
    assert_eq!(read_i16s(&mut src, 2), Ok(vec![1, i16::MIN]));
    assert_eq!(src, &[0x09][..]);

    let mut src = &[0xff, 0xff, 0xff, 0xff, 0x02, 0x00, 0x00, 0x00][..];
    assert_eq!(read_i32s(&mut src, 2), Ok(vec![-1, 2]));
    assert!(src.is_empty());

    let mut src = &[0x00, 0x00, 0x00][..];
    assert_eq!(read_i32s(&mut src, 1), Err(DecodeError::UnexpectedEof));
    assert_eq!(read_i16s(&mut src, usize::MAX), Err(DecodeError::UnexpectedEof));
    assert_eq!(src.len(), 3);

    let mut src = &b"abcdef"[..];
    assert_eq!(read_string(&mut src, 2), Ok(&b"ab"[..]));
    assert_eq!(src, &b"cdef"[..]);
}
