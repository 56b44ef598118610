use bytes::BytesMut;
use rnet::codec::RawCodec;
use rnet::gfd::{Gfd, GfdSequence};

#[test]
fn vec_io_buffer_tracks_reads_and_cursor() {
    let mut b = rnet::buffer::IOBuffer::new(8);
    assert_eq!(b.as_slice(), &[0u8; 8]);
    assert_eq!(b.remaining(), 0);
    b.read(5);
    assert_eq!(b.remaining(), 5);
    b.advance(2);
    assert_eq!(b.remaining(), 3);
    assert_eq!(b.remaining_bytes(), &[0u8; 3]);
}

#[test]
fn bytes_io_buffer_splits_unconsumed_bytes() {
    let mut b = rnet::io_buffer::IOBuffer::new(5);
    assert_eq!(b.remaining(), 0);
    b.set_cursor(8);
    assert_eq!(b.remaining_bytes().len(), 8);
    b.advance(3);
    let front = b.split_to(2);
    assert_eq!(&front[..], &[0u8, 0]);
    assert_eq!(b.remaining(), 3);
    let mut out = [7u8; 5];
    assert_eq!(b.read_into(&mut out), 3);
    assert_eq!(&out, &[0, 0, 0, 7, 7]);
    assert_eq!(b.remaining(), 0);
}

#[test]
fn raw_codec_passes_bytes_through() {
    let mut codec = RawCodec;
    let mut src = BytesMut::from(&b"ping"[..]);
    let m = codec.decode_frame(&mut src).unwrap();
    assert_eq!(&m[..], b"ping");
    assert!(src.is_empty());
    assert!(codec.decode_frame(&mut src).is_none());
    let mut dst = BytesMut::from(&b">"[..]);
    codec.encode_frame(&m, &mut dst);
    assert_eq!(&dst[..], b">ping");
}

#[test]
fn gfd_description() {
    let mut seqs = GfdSequence::new();
    let g = Gfd::new(100, 5, 12345, &mut seqs);
    assert_eq!(g.describe(), "Gfd { fd: 100, seq: 0, loop: 5, index: 12345 }");
}
