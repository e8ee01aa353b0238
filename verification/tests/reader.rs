//! The buffered value reader against a chunked source.

use hmemu::{Error, Primitive, ReadStep, ValueReader, BUF_SIZE};

/// A source that serves `data` through a buffer: the number of bytes written,
/// zero when nothing is left.
fn serve(data: &[u8], offset: usize, buf: &mut [u8]) -> i32 {
    if offset >= data.len() {
        return 0;
    }
    let n = std::cmp::min(buf.len(), data.len() - offset);
    buf[..n].copy_from_slice(&data[offset..offset + n]);
    n as i32
}

/// Pages `data` through a buffer of `chunk` bytes; also counts the reads.
fn page(data: &[u8], chunk: usize) -> (Result<Vec<u8>, Error>, usize) {
    let mut buf = vec![0xAAu8; chunk];
    let mut reader = ValueReader::new(Primitive::ReadReturnValue);
    let mut reads = 0;
    loop {
        let code = serve(data, reader.offset(), &mut buf);
        reads += 1;
        match reader.accept(code, &buf) {
            ReadStep::More(next) => reader = next,
            ReadStep::Done(value) => return (Ok(value), reads),
            ReadStep::Failed(error) => return (Err(error), reads),
        }
    }
}

fn pattern(len: usize) -> Vec<u8> {
    (0..len).map(|i| (i * 7 + 3) as u8).collect()
}

#[test]
fn buffer_size_is_128() {
    assert_eq!(BUF_SIZE, 128);
}

#[test]
fn round_trip_empty() {
    let (value, reads) = page(&[], 16);
    assert_eq!(value, Ok(Vec::new()));
    assert_eq!(reads, 1);
}

#[test]
fn round_trip_shorter_than_chunk() {
    let data = pattern(5);
    let (value, reads) = page(&data, 16);
    assert_eq!(value, Ok(data));
    assert_eq!(reads, 1);
}

#[test]
fn round_trip_exactly_one_chunk() {
    let data = pattern(16);
    let (value, reads) = page(&data, 16);
    assert_eq!(value, Ok(data));
    // a full buffer does not end the value: one more, empty, read does
    assert_eq!(reads, 2);
}

#[test]
fn round_trip_chunks_and_remainder() {
    let data = pattern(3 * 16 + 5);
    let (value, reads) = page(&data, 16);
    assert_eq!(value, Ok(data));
    assert_eq!(reads, 4);
}

#[test]
fn round_trip_whole_chunks() {
    let data = pattern(4 * 16);
    let (value, reads) = page(&data, 16);
    assert_eq!(value, Ok(data));
    assert_eq!(reads, 5);
}

#[test]
fn round_trip_default_buffer_plus_one() {
    let data = pattern(BUF_SIZE + 1);
    let (value, reads) = page(&data, BUF_SIZE);
    assert_eq!(value.as_ref().map(|v| v.len()), Ok(BUF_SIZE + 1));
    assert_eq!(value, Ok(data));
    assert_eq!(reads, 2);
}

#[test]
fn round_trip_single_byte_chunks() {
    let data = pattern(9);
    let (value, reads) = page(&data, 1);
    assert_eq!(value, Ok(data));
    assert_eq!(reads, 10);
}

#[test]
fn offset_counts_gathered_bytes() {
    let reader = ValueReader::new(Primitive::ReadEvent);
    assert_eq!(reader.offset(), 0);
    let reader = match reader.accept(4, &[1, 2, 3, 4]) {
        ReadStep::More(next) => next,
        _ => panic!("a full buffer asks for more"),
    };
    assert_eq!(reader.offset(), 4);
    match reader.accept(2, &[5, 6, 0, 0]) {
        ReadStep::Done(value) => assert_eq!(value, vec![1, 2, 3, 4, 5, 6]),
        _ => panic!("a short chunk ends the value"),
    }
}

#[test]
fn only_the_reported_bytes_are_taken() {
    let reader = ValueReader::new(Primitive::ReadReturnValue);
    match reader.accept(3, &[9, 8, 7, 6, 5, 4, 3, 2]) {
        ReadStep::Done(value) => assert_eq!(value, vec![9, 8, 7]),
        _ => panic!("a short chunk ends the value"),
    }
}

#[test]
fn negative_on_first_read_is_not_found() {
    let reader = ValueReader::new(Primitive::ReadReturnValue);
    match reader.accept(-1, &[0; 8]) {
        ReadStep::Failed(error) => {
            assert_eq!(error, Error::NotFound { primitive: Primitive::ReadReturnValue })
        }
        _ => panic!("a negative code fails the read"),
    }
    let reader = ValueReader::new(Primitive::ReadEvent);
    match reader.accept(-7, &[0; 8]) {
        ReadStep::Failed(error) => assert_eq!(error, Error::NotFound { primitive: Primitive::ReadEvent }),
        _ => panic!("a negative code fails the read"),
    }
}

#[test]
fn negative_after_a_chunk_is_a_failure_not_a_truncation() {
    let reader = ValueReader::new(Primitive::ReadReturnValue);
    let reader = match reader.accept(2, &[1, 2]) {
        ReadStep::More(next) => next,
        _ => panic!("a full buffer asks for more"),
    };
    match reader.accept(-1, &[0, 0]) {
        ReadStep::Failed(error) => {
            assert_eq!(error, Error::Engine { primitive: Primitive::ReadReturnValue, code: -1 })
        }
        _ => panic!("a negative code fails the read"),
    }
}

#[test]
fn more_bytes_than_the_buffer_is_an_overrun() {
    let reader = ValueReader::new(Primitive::ReadReturnValue);
    match reader.accept(5, &[0; 4]) {
        ReadStep::Failed(error) => {
            assert_eq!(error, Error::Overrun { primitive: Primitive::ReadReturnValue, code: 5 })
        }
        _ => panic!("an overrun fails the read"),
    }
}

#[test]
fn zero_ends_the_value_at_any_point() {
    let reader = ValueReader::new(Primitive::ReadReturnValue);
    let reader = match reader.accept(2, &[1, 2]) {
        ReadStep::More(next) => next,
        _ => panic!("a full buffer asks for more"),
    };
    match reader.accept(0, &[7, 7]) {
        ReadStep::Done(value) => assert_eq!(value, vec![1, 2]),
        _ => panic!("zero ends the value"),
    }
}

#[test]
fn a_buffer_without_room_carries_nothing() {
    let reader = ValueReader::new(Primitive::ReadReturnValue);
    match reader.accept(0, &[]) {
        ReadStep::Done(value) => assert_eq!(value, Vec::<u8>::new()),
        _ => panic!("zero ends the value"),
    }
    let reader = ValueReader::new(Primitive::ReadReturnValue);
    match reader.accept(1, &[]) {
        ReadStep::Failed(error) => {
            assert_eq!(error, Error::Overrun { primitive: Primitive::ReadReturnValue, code: 1 })
        }
        _ => panic!("an overrun fails the read"),
    }
}
