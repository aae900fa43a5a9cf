use pastebin::read::{
    load_data, BoundedReader, ByteStream, IoError, MemoryStream, ReadError, CHUNK_SIZE,
};

/// A stream that hands out one byte at a time and then fails.
struct Trickle {
    left: usize,
}

impl ByteStream for Trickle {
    fn read_chunk(&mut self, max: usize) -> Result<Vec<u8>, IoError> {
        if self.left == 0 || max == 0 {
            return Err(IoError::Failed);
        }
        self.left -= 1;
        Ok(vec![7])
    }
}

/// A stream that hands out more than it is asked for.
struct Flood;

impl ByteStream for Flood {
    fn read_chunk(&mut self, max: usize) -> Result<Vec<u8>, IoError> {
        Ok(vec![0; max + 1])
    }
}

fn bytes(n: usize) -> Vec<u8> {
    (0..n).map(|i| (i % 251) as u8).collect()
}

#[test]
fn announced_length_is_read_exactly() {
    let mut stream = MemoryStream::new(bytes(3000));
    assert_eq!(load_data(&mut stream, 5000, Some(2500)), Ok(bytes(2500)));
    assert_eq!(stream.take(10000).len(), 500);
}

#[test]
fn announced_length_at_the_limit_is_read() {
    let mut stream = MemoryStream::new(bytes(10));
    assert_eq!(load_data(&mut stream, 10, Some(10)), Ok(bytes(10)));
    let mut stream = MemoryStream::new(bytes(10));
    assert_eq!(load_data(&mut stream, 10, Some(0)), Ok(Vec::new()));
    let mut stream = MemoryStream::new(Vec::new());
    assert_eq!(load_data(&mut stream, 0, Some(0)), Ok(Vec::new()));
}

#[test]
fn announced_length_over_the_limit_is_too_big() {
    let mut stream = MemoryStream::new(bytes(20));
    assert_eq!(load_data(&mut stream, 10, Some(11)), Err(ReadError::TooBig));
    assert_eq!(stream.take(100), bytes(20));
    let mut stream = MemoryStream::new(Vec::new());
    assert_eq!(load_data(&mut stream, 10, Some(u64::MAX)), Err(ReadError::TooBig));
}

#[test]
fn early_end_is_an_io_error() {
    let mut stream = MemoryStream::new(bytes(9));
    assert_eq!(
        load_data(&mut stream, 100, Some(10)),
        Err(ReadError::Io(IoError::UnexpectedEof))
    );
}

#[test]
fn without_length_all_is_read() {
    let mut stream = MemoryStream::new(bytes(3 * CHUNK_SIZE + 17));
    assert_eq!(load_data(&mut stream, 1 << 20, None), Ok(bytes(3 * CHUNK_SIZE + 17)));
    let mut stream = MemoryStream::new(Vec::new());
    assert_eq!(load_data(&mut stream, 10, None), Ok(Vec::new()));
    let mut stream = MemoryStream::new(bytes(10));
    assert_eq!(load_data(&mut stream, 10, None), Ok(bytes(10)));
}

#[test]
fn without_length_over_the_limit_is_too_big() {
    let mut stream = MemoryStream::new(bytes(11));
    assert_eq!(load_data(&mut stream, 10, None), Err(ReadError::TooBig));
    let mut stream = MemoryStream::new(bytes(5 * CHUNK_SIZE));
    assert_eq!(load_data(&mut stream, 2 * CHUNK_SIZE + 1, None), Err(ReadError::TooBig));
    let mut stream = MemoryStream::new(bytes(1));
    assert_eq!(load_data(&mut stream, 0, None), Err(ReadError::TooBig));
}

#[test]
fn stream_errors_are_passed_on() {
    assert_eq!(
        load_data(&mut Trickle { left: 3 }, 100, Some(5)),
        Err(ReadError::Io(IoError::Failed))
    );
    assert_eq!(load_data(&mut Trickle { left: 5 }, 100, Some(5)), Ok(vec![7; 5]));
    assert_eq!(load_data(&mut Trickle { left: 3 }, 100, None), Err(ReadError::Io(IoError::Failed)));
    assert_eq!(load_data(&mut Flood, 100, Some(5)), Err(ReadError::Io(IoError::Overrun)));
    assert_eq!(load_data(&mut Flood, 1 << 20, None), Err(ReadError::Io(IoError::Overrun)));
}

#[test]
fn reader_asks_for_what_is_left() {
    let mut reader = BoundedReader::new(5000, Some(1500)).unwrap();
    assert_eq!(reader.wanted(), CHUNK_SIZE);
    assert_eq!(reader.feed(bytes(1000)), Ok(()));
    assert_eq!(reader.wanted(), 500);
    assert_eq!(reader.feed(bytes(501)), Err(ReadError::Io(IoError::Overrun)));
    assert_eq!(reader.wanted(), 500);
    assert_eq!(reader.feed(Vec::new()), Err(ReadError::Io(IoError::UnexpectedEof)));
    assert_eq!(reader.feed(bytes(500)), Ok(()));
    assert_eq!(reader.wanted(), 0);
    assert_eq!(reader.into_data().len(), 1500);
}

#[test]
fn reader_without_length_stops_at_the_end_or_the_limit() {
    let mut reader = BoundedReader::new(1500, None).unwrap();
    assert_eq!(reader.wanted(), CHUNK_SIZE);
    assert_eq!(reader.feed(bytes(1000)), Ok(()));
    assert_eq!(reader.wanted(), CHUNK_SIZE);
    assert_eq!(reader.feed(bytes(501)), Err(ReadError::TooBig));
    assert_eq!(reader.feed(bytes(500)), Ok(()));
    assert_eq!(reader.wanted(), CHUNK_SIZE);
    assert_eq!(reader.feed(bytes(1)), Err(ReadError::TooBig));
    assert_eq!(reader.feed(Vec::new()), Ok(()));
    assert_eq!(reader.wanted(), 0);
    assert_eq!(reader.into_data(), [bytes(1000), bytes(500)].concat());
}

#[test]
fn reader_refuses_an_announcement_over_the_limit() {
    assert!(matches!(BoundedReader::new(10, Some(11)), Err(ReadError::TooBig)));
    assert!(BoundedReader::new(10, Some(10)).is_ok());
    assert!(BoundedReader::new(0, None).is_ok());
}

#[test]
fn memory_stream_hands_out_in_order() {
    let mut stream = MemoryStream::new(vec![1, 2, 3, 4, 5]);
    assert_eq!(stream.take(2), vec![1, 2]);
    assert_eq!(stream.read_chunk(0), Ok(vec![]));
    assert_eq!(stream.read_chunk(2), Ok(vec![3, 4]));
    assert_eq!(stream.take(2), vec![5]);
    assert_eq!(stream.take(2), Vec::<u8>::new());
}
