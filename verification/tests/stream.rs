use transaction_codec::error::CodecError;
use transaction_codec::stream::{BoundedReader, BoundedWriter};

#[test]
fn reader_hands_out_bytes_in_order() {
    let input = [1u8, 2, 3, 4, 5];
    let mut reader = BoundedReader::new(&input, 10);
    assert_eq!(reader.read_u8(), Ok(1));
    assert_eq!(reader.read(3), Ok(&input[1..4]));
    assert_eq!(reader.read(0), Ok(&input[4..4]));
    assert_eq!(reader.read_u8(), Ok(5));
    assert_eq!(reader.read_u8(), Err(CodecError::UnexpectedEnd));
}

#[test]
fn reader_stops_at_the_ceiling() {
    let input = [1u8, 2, 3, 4, 5];
    let mut reader = BoundedReader::new(&input, 3);
    assert_eq!(reader.read(2), Ok(&input[0..2]));
    assert_eq!(reader.read(2), Err(CodecError::SizeLimitExceeded));
    // A failed read consumes nothing.
    assert_eq!(reader.read(1), Ok(&input[2..3]));
    assert_eq!(reader.read_u8(), Err(CodecError::SizeLimitExceeded));
    assert_eq!(reader.read(usize::MAX), Err(CodecError::SizeLimitExceeded));
}

#[test]
fn reader_tests_the_ceiling_before_the_input() {
    let input = [1u8, 2];
    let mut reader = BoundedReader::new(&input, 4);
    assert_eq!(reader.read(5), Err(CodecError::SizeLimitExceeded));
    assert_eq!(reader.read(3), Err(CodecError::UnexpectedEnd));
    let mut empty = BoundedReader::new(&input, 0);
    assert_eq!(empty.read_u8(), Err(CodecError::SizeLimitExceeded));
}

#[test]
fn writer_takes_bytes_up_to_the_ceiling() {
    let mut writer = BoundedWriter::new(4);
    assert_eq!(writer.write_u8(7), Ok(()));
    assert_eq!(writer.write(&[8, 9]), Ok(()));
    assert_eq!(writer.write(&[1, 2]), Err(CodecError::SizeLimitExceeded));
    assert_eq!(writer.write(&[]), Ok(()));
    assert_eq!(writer.write_u8(10), Ok(()));
    assert_eq!(writer.write_u8(11), Err(CodecError::SizeLimitExceeded));
    assert_eq!(writer.into_bytes(), vec![7, 8, 9, 10]);
}

#[test]
fn writer_with_no_room_takes_nothing() {
    let mut writer = BoundedWriter::new(0);
    assert_eq!(writer.write_u8(1), Err(CodecError::SizeLimitExceeded));
    assert_eq!(writer.write(&[1]), Err(CodecError::SizeLimitExceeded));
    assert_eq!(writer.write(&[]), Ok(()));
    assert_eq!(writer.into_bytes(), Vec::<u8>::new());
}
