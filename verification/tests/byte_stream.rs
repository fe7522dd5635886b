use intel8086::byte_stream::ByteStream;

#[test]
fn test_new() {
    let data = &[1, 2, 3];
    let stream = ByteStream::new(data);
    assert_eq!(stream.index(), 0);
    assert_eq!(stream.data(), data);
}

#[test]
fn test_peek() {
    let data = &[1, 2, 3];
    let mut stream = ByteStream::new(data);
    assert_eq!(stream.peek().unwrap(), 1);
    stream.consume(2).unwrap();
    assert_eq!(stream.peek().unwrap(), 3);
}

#[test]
fn test_peek_empty() {
    let data: &[u8] = &[];
    let stream = ByteStream::new(data);
    assert!(stream.peek().is_none());
}

#[test]
fn test_len() {
    let data = &[1, 2, 3];
    let mut stream = ByteStream::new(data);
    assert_eq!(stream.len(), 3);
    stream.consume(2).unwrap();
    assert_eq!(stream.len(), 1);
}

#[test]
fn test_consume() {
    let data = &[1, 2, 3, 4, 5, 6];
    let mut stream = ByteStream::new(data);
    assert_eq!(stream.consume(2).unwrap(), &[1, 2]);
    assert_eq!(stream.peek().unwrap(), 3);
    assert_eq!(stream.consume(2).unwrap(), &[3, 4]);
    assert_eq!(stream.consume(2).unwrap(), &[5, 6]);
}

#[test]
fn test_consume_too_much() {
    let data = &[1, 2, 3];
    let mut stream = ByteStream::new(data);
    assert!(stream.consume(4).is_err());
}

#[test]
fn test_is_empty() {
    let data = &[1, 2];
    let mut stream = ByteStream::new(data);
    assert!(!stream.is_empty());
    stream.consume(2).unwrap();
    assert!(stream.is_empty());
}

#[test]
fn consume_failure_leaves_the_stream() {
    let data = &[1, 2, 3];
    let mut stream = ByteStream::new(data);
    stream.consume(1).unwrap();
    let error = stream.consume(3).unwrap_err();
    assert_eq!(error.kind(), std::io::ErrorKind::UnexpectedEof);
    assert_eq!(stream.index(), 1);
    assert_eq!(stream.len(), 2);
    assert_eq!(stream.consume(0).unwrap(), &[] as &[u8]);
    assert_eq!(stream.consume(2).unwrap(), &[2, 3]);
    assert!(stream.is_empty());
    assert!(stream.peek().is_none());
}
