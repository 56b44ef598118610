use rnet::elastic::ring::Buffer;

fn joined(parts: (&[u8], &[u8])) -> Vec<u8> {
    let mut v = parts.0.to_vec();
    v.extend_from_slice(parts.1);
    v
}

#[test]
fn ring_new_rounds_capacity_up() {
    let b = Buffer::new(5);
    assert!(b.is_empty());
    assert_eq!(b.len(), 0);
    let empty = Buffer::new(0);
    assert!(empty.is_empty());
}

#[test]
fn ring_read_returns_what_was_written() {
    let mut b = Buffer::new(8);
    assert_eq!(b.write(b"hello"), Some(5));
    assert_eq!(b.len(), 5);
    assert!(!b.is_empty());
    let mut out = [0u8; 16];
    assert_eq!(b.read(&mut out), Some(5));
    assert_eq!(&out[..5], b"hello");
    assert_eq!(&out[5..], &[0u8; 11]);
    assert!(b.is_empty());
}

#[test]
fn ring_wraps_around_and_grows() {
    let mut b = Buffer::new(8);
    assert_eq!(b.write(b"abcdef"), Some(6));
    let mut out = [0u8; 4];
    assert_eq!(b.read(&mut out), Some(4));
    assert_eq!(&out, b"abcd");
    assert_eq!(b.write(b"ghijk"), Some(5));
    assert_eq!(b.len(), 7);
    assert_eq!(joined(b.peek_all()), b"efghijk".to_vec());
    assert_eq!(b.write(b"lmnopq"), Some(6));
    assert_eq!(b.len(), 13);
    assert_eq!(joined(b.peek_all()), b"efghijklmnopq".to_vec());
    let mut all = [0u8; 13];
    assert_eq!(b.read(&mut all), Some(13));
    assert_eq!(&all, b"efghijklmnopq");
}

#[test]
fn ring_peek_does_not_consume() {
    let mut b = Buffer::new(4);
    b.write(b"xyz").unwrap();
    assert_eq!(joined(b.peek(2)), b"xy".to_vec());
    assert_eq!(joined(b.peek(0)), b"xyz".to_vec());
    assert_eq!(joined(b.peek(10)), b"xyz".to_vec());
    assert_eq!(b.len(), 3);
}

#[test]
fn ring_discard_skips_bytes() {
    let mut b = Buffer::new(8);
    b.write(b"12345").unwrap();
    assert_eq!(b.discard(0), Some(0));
    assert_eq!(b.discard(2), Some(2));
    assert_eq!(joined(b.peek_all()), b"345".to_vec());
    assert_eq!(b.discard(10), Some(3));
    assert!(b.is_empty());
}

#[test]
fn ring_read_of_empty_buffer() {
    let mut b = Buffer::new(8);
    let mut out = [0u8; 4];
    assert_eq!(b.read(&mut out), None);
    let mut none: [u8; 0] = [];
    assert_eq!(b.read(&mut none), Some(0));
    assert_eq!(b.write(b""), Some(0));
}

#[test]
fn ring_reset_empties() {
    let mut b = Buffer::new(8);
    b.write(b"abc").unwrap();
    b.reset();
    assert!(b.is_empty());
    assert_eq!(joined(b.peek_all()), Vec::<u8>::new());
}

#[test]
fn ring_read_position_advances_and_resets() {
    let mut b = Buffer::new(8);
    assert_eq!(b.write(b"abcdef"), Some(6));
    assert_eq!(b.discard(3), Some(3));
    // reading starts at slot 3: two bytes up to the end of what was written
    assert_eq!(b.peek_all().0, b"def");
    assert_eq!(b.write(b"ghijk"), Some(5));
    // slots 3..8 then the wrapped part
    assert_eq!(b.peek_all().0, b"defgh");
    assert_eq!(b.peek_all().1, b"ijk");
    assert_eq!(b.discard(100), Some(8));
    // discarding everything starts over at slot 0
    assert_eq!(b.write(b"xyz"), Some(3));
    assert_eq!(b.peek_all().0, b"xyz");
    assert_eq!(b.peek_all().1, b"");
    let mut out = [0u8; 3];
    assert_eq!(b.read(&mut out), Some(3));
    b.reset();
    assert_eq!(b.write(b"12345678"), Some(8));
    assert_eq!(b.peek_all().0, b"12345678");
}
