use bytes::{Bytes, BytesMut};
use rnet::connection::{FlushStep, OutBuffer, PeekData, ReadBuffers, WriteOutcome, WriteStart};

fn bufs(in_data: Option<&[u8]>, io_data: Option<&[u8]>) -> ReadBuffers {
    ReadBuffers {
        in_buffer: in_data.map(BytesMut::from),
        io_buffer: io_data.map(BytesMut::from),
    }
}

#[test]
fn next_contiguous_spans_both_buffers() {
    let mut b = bufs(Some(b"abc"), Some(b"defg"));
    let d = b.next_contiguous(Some(5)).unwrap();
    assert_eq!(&d[..], b"abcde");
    assert!(b.in_buffer.is_none());
    assert_eq!(b.io_buf_len(), 2);
    let rest = b.next_contiguous(None).unwrap();
    assert_eq!(&rest[..], b"fg");
}

#[test]
fn next_contiguous_refuses_too_much() {
    let mut b = bufs(Some(b"ab"), Some(b"c"));
    assert!(b.next_contiguous(Some(4)).is_none());
    assert_eq!(b.in_buf_len(), 2);
    assert_eq!(b.io_buf_len(), 1);
    let mut none = bufs(None, None);
    assert!(none.next_contiguous(None).is_none());
}

#[test]
fn next_contiguous_from_one_buffer() {
    let mut b = bufs(Some(b"abcd"), Some(b"xy"));
    assert_eq!(&b.next_contiguous(Some(2)).unwrap()[..], b"ab");
    assert_eq!(b.in_buf_len(), 2);
    let mut io_only = bufs(None, Some(b"hello"));
    assert_eq!(&io_only.next_contiguous(Some(4)).unwrap()[..], b"hell");
    assert_eq!(io_only.io_buf_len(), 1);
}

#[test]
fn peek_shows_without_taking() {
    let b = bufs(Some(b"ab"), Some(b"cd"));
    assert_eq!(b.peek(Some(3)).unwrap().as_slice(), b"abc");
    assert_eq!(b.peek(Some(1)).unwrap().as_slice(), b"a");
    assert_eq!(b.peek(None).unwrap().as_slice(), b"abcd");
    assert!(b.peek(Some(5)).is_none());
    assert_eq!(b.in_buf_len() + b.io_buf_len(), 4);
}

#[test]
fn discard_drops_and_releases() {
    let mut b = bufs(Some(b"ab"), Some(b"cde"));
    assert_eq!(b.discard(Some(2)), Some(2));
    assert!(b.in_buffer.is_none());
    assert_eq!(b.discard(Some(1)), Some(1));
    assert_eq!(b.peek(None).unwrap().as_slice(), b"de");
    assert_eq!(b.discard(Some(9)), None);
    assert_eq!(b.discard(None), Some(2));
    assert_eq!(b.io_buf_len(), 0);
}

#[test]
fn next_vectored_gives_two_parts() {
    let mut b = bufs(Some(b"ab"), Some(b"cde"));
    let parts = b.next_vectored(Some(4)).unwrap().into_vec();
    assert_eq!(parts.len(), 2);
    assert_eq!(&parts[0][..], b"ab");
    assert_eq!(&parts[1][..], b"cd");
    assert!(b.in_buffer.is_none());
    assert!(b.next_vectored(Some(0)).is_none());
    assert!(b.next_vectored(Some(2)).is_none());
    let last = b.next_vectored(None).unwrap().into_vec();
    assert_eq!(last.len(), 1);
    assert_eq!(&last[0][..], b"e");
}

#[test]
fn read_into_copies_in_order() {
    let mut b = bufs(Some(b"ab"), Some(b"cde"));
    let mut out = [0u8; 4];
    assert_eq!(b.read_into(&mut out), 4);
    assert_eq!(&out, b"abcd");
    let mut more = [9u8; 3];
    assert_eq!(b.read_into(&mut more), 1);
    assert_eq!(&more, &[b'e', 9, 9]);
}

fn pending(o: &OutBuffer) -> Vec<u8> {
    let mut v = Vec::new();
    if let Some(q) = &o.queue {
        for b in q {
            v.extend_from_slice(b);
        }
    }
    v
}

#[test]
fn partial_write_queues_the_rest() {
    let mut o = OutBuffer::new();
    assert!(o.is_empty());
    let bs = [Bytes::from_static(b"hello"), Bytes::from_static(b"world")];
    assert_eq!(o.record_write(&bs, WriteOutcome::Wrote(7)), Some(10));
    assert_eq!(pending(&o), b"rld".to_vec());
    assert!(!o.is_empty());
}

#[test]
fn blocked_write_queues_everything() {
    let mut o = OutBuffer::new();
    let bs = [Bytes::from_static(b"ab"), Bytes::from_static(b"")];
    assert_eq!(o.record_write(&bs, WriteOutcome::WouldBlock), Some(2));
    assert_eq!(o.queue.as_ref().unwrap().len(), 2);
    assert_eq!(o.record_write(&bs, WriteOutcome::Failed), None);
    assert_eq!(pending(&o), b"ab".to_vec());
}

#[test]
fn flush_consumes_written_bytes_in_order() {
    let mut o = OutBuffer::new();
    o.push(Bytes::from_static(b"abc"));
    o.push(Bytes::from_static(b"def"));
    assert_eq!(o.record_flush(WriteOutcome::Wrote(4)), FlushStep::Continue);
    assert_eq!(pending(&o), b"ef".to_vec());
    assert_eq!(o.record_flush(WriteOutcome::Wrote(0)), FlushStep::WriteZero);
    assert_eq!(o.record_flush(WriteOutcome::WouldBlock), FlushStep::WouldBlock);
    assert_eq!(o.record_flush(WriteOutcome::Interrupted), FlushStep::Continue);
    assert_eq!(o.record_flush(WriteOutcome::Failed), FlushStep::Failed);
    assert_eq!(o.record_flush(WriteOutcome::Wrote(10)), FlushStep::Continue);
    assert!(o.is_empty());
}

#[test]
fn retain_unread_keeps_leftover_behind_held_back_bytes() {
    let mut b = bufs(Some(b"ab"), Some(b"cd"));
    b.retain_unread();
    assert!(b.io_buffer.is_none());
    assert_eq!(b.peek(None).unwrap().as_slice(), b"abcd");
    let mut c = bufs(None, Some(b"xy"));
    c.retain_unread();
    assert_eq!(c.in_buf_len(), 2);
    let mut d = bufs(None, Some(b""));
    d.retain_unread();
    assert!(d.in_buffer.is_none());
}

#[test]
fn peek_data_derefs_to_bytes() {
    let b = bufs(Some(b"ab"), Some(b"cd"));
    let p = b.peek(Some(3)).unwrap();
    assert_eq!(&*p, b"abc");
}

#[test]
fn peek_copies_only_across_both_buffers() {
    let b = bufs(Some(b"abc"), Some(b"defg"));
    assert!(matches!(b.peek(Some(2)).unwrap(), PeekData::Raw(_)));
    assert!(matches!(b.peek(Some(3)).unwrap(), PeekData::Raw(_)));
    let p = b.peek(Some(5)).unwrap();
    assert!(matches!(p, PeekData::BytesMut(_)));
    assert_eq!(p.as_slice(), b"abcde");
    let io_only = bufs(None, Some(b"hello"));
    assert!(matches!(io_only.peek(None).unwrap(), PeekData::Raw(_)));
}

#[test]
fn start_write_queues_behind_pending_data() {
    let mut o = OutBuffer::new();
    assert_eq!(o.start_write(&[]), WriteStart::Done(0));
    assert_eq!(o.start_write(&[Bytes::new()]), WriteStart::Done(0));
    assert!(o.is_empty());
    assert_eq!(o.start_write(&[Bytes::from_static(b"ab")]), WriteStart::WriteNow);
    assert!(o.is_empty());
    o.push(Bytes::from_static(b"x"));
    assert_eq!(o.start_write(&[Bytes::from_static(b"ab"), Bytes::from_static(b"cde")]), WriteStart::Done(5));
    assert_eq!(pending(&o), b"xabcde".to_vec());
    assert_eq!(o.start_write(&[Bytes::new(), Bytes::new()]), WriteStart::Done(0));
    assert_eq!(pending(&o), b"xabcde".to_vec());
}

#[test]
fn taking_bytes_keeps_the_split_between_buffers() {
    let mut b = bufs(Some(b"abc"), Some(b"defg"));
    assert_eq!(b.discard(Some(2)), Some(2));
    assert_eq!((b.in_buf_len(), b.io_buf_len()), (1, 4));
    let mut b = bufs(Some(b"abc"), Some(b"defg"));
    assert_eq!(&b.next_contiguous(Some(5)).unwrap()[..], b"abcde");
    assert_eq!((b.in_buf_len(), b.io_buf_len()), (0, 2));
    let mut b = bufs(Some(b"abc"), Some(b"defg"));
    let mut out = [0u8; 4];
    assert_eq!(b.read_into(&mut out), 4);
    assert_eq!((b.in_buf_len(), b.io_buf_len()), (0, 3));
    let mut b = bufs(Some(b"abc"), Some(b"defg"));
    assert!(b.next_vectored(Some(3)).is_some());
    assert_eq!((b.in_buf_len(), b.io_buf_len()), (0, 4));
}
