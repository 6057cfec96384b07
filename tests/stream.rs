use serbian_translit::processor::{Direction, Error, StreamProcessor, CONSUMED_BUFFER};

#[test]
fn consume_fills_buffer() {
    let mut proc = StreamProcessor::new(Direction::CyrToLat);
    assert_eq!(proc.consume(b"abc"), Ok(3));
    assert_eq!(proc.consume(b"defgh"), Err(5));
    assert_eq!(proc.consumed, CONSUMED_BUFFER);
    assert_eq!(&proc.buffer_consumed, b"abcdefgh");
    assert_eq!(proc.consume(b"x"), Err(0));
}

#[test]
fn digest_keeps_incomplete_tail() {
    let mut proc = StreamProcessor::new(Direction::LatToCyr);
    let bytes = "aš".as_bytes();
    assert_eq!(proc.consume(&bytes[..2]), Ok(2));
    proc.digest().unwrap();
    assert_eq!(proc.digested, 1);
    assert_eq!(proc.buffer_digested[0], 'a');
    assert_eq!(proc.consumed, 1);
    assert_eq!(proc.consume(&bytes[2..]), Ok(1));
    proc.digest().unwrap();
    assert_eq!(proc.digested, 2);
    assert_eq!(&proc.buffer_digested[..2], &['a', 'š']);
    assert_eq!(proc.consumed, 0);
}

#[test]
fn digest_rejects_invalid_start() {
    let mut proc = StreamProcessor::new(Direction::LatToCyr);
    assert_eq!(proc.consume(&[0xff, b'a']), Ok(2));
    assert!(matches!(proc.digest(), Err(Error::UTFError(0))));
    assert_eq!(proc.consumed, 2);
}

#[test]
fn digest_overflows_full_buffer() {
    let mut proc = StreamProcessor::new(Direction::LatToCyr);
    proc.digested = 30;
    assert_eq!(proc.consume(b"ab"), Ok(2));
    assert!(matches!(proc.digest(), Err(Error::BufferOverflow)));
    assert_eq!(proc.digested, 30);
}
