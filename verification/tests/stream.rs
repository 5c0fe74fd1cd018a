use protracker::error::DecodeError;
use protracker::stream::ByteStream;

#[test]
fn a_new_stream_offers_all_its_bytes() {
    let data = [1u8, 2, 3];
    let stream = ByteStream::new(&data);
    assert_eq!(stream.available(), 3);
}

#[test]
fn reading_hands_out_bytes_in_order() {
    let data = [1u8, 2, 3, 4, 5];
    let mut stream = ByteStream::new(&data);
    assert_eq!(stream.read_bytes(2), Ok(&data[0..2]));
    assert_eq!(stream.available(), 3);
    assert_eq!(stream.read_bytes(3), Ok(&data[2..5]));
    assert_eq!(stream.available(), 0);
}

#[test]
fn reading_nothing_always_succeeds() {
    let data: [u8; 0] = [];
    let mut stream = ByteStream::new(&data);
    assert_eq!(stream.read_bytes(0), Ok(&data[..]));
    assert_eq!(stream.available(), 0);
}

#[test]
fn a_short_read_fails_and_consumes_nothing() {
    let data = [1u8, 2, 3];
    let mut stream = ByteStream::new(&data);
    assert_eq!(stream.read_bytes(4), Err(DecodeError::TruncatedInput));
    assert_eq!(stream.available(), 3);
    assert_eq!(stream.read_bytes(3), Ok(&data[..]));
}

#[test]
fn a_huge_count_does_not_overflow() {
    let data = [1u8, 2, 3];
    let mut stream = ByteStream::new(&data);
    assert_eq!(stream.read_bytes(1), Ok(&data[0..1]));
    assert_eq!(stream.read_bytes(usize::MAX), Err(DecodeError::TruncatedInput));
    assert_eq!(stream.available(), 2);
}
