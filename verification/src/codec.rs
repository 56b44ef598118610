//! Framing of messages on a connection's byte stream.

use crate::bytes_buf::{
    bytes_mut_as_slice, bytes_mut_extend_from_slice, bytes_mut_len, bytes_mut_split_to, bytes_mut_view,
};
use bytes::BytesMut;
use vstd::prelude::*;

verus! {

/// The codec that passes bytes through unchanged: every decode takes all
/// buffered bytes as one message, and encoding appends a message's bytes.
#[derive(Clone, Debug)]
pub struct RawCodec;

impl RawCodec {
    /// Takes everything buffered in `src` as one message; `None`, leaving
    /// `src` alone, when nothing is buffered.
    pub fn decode_frame(&mut self, src: &mut BytesMut) -> (r: Option<BytesMut>)
        ensures
            match r {
                None => {
                    &&& bytes_mut_view(*old(src)).len() == 0
                    &&& bytes_mut_view(*final(src)) == bytes_mut_view(*old(src))
                },
                Some(m) => {
                    &&& bytes_mut_view(*old(src)).len() > 0
                    &&& bytes_mut_view(m) == bytes_mut_view(*old(src))
                    &&& bytes_mut_view(*final(src)) == Seq::<u8>::empty()
                },
            },
    {
        let len = bytes_mut_len(src);
        if len == 0 {
            return None;
        }
        let m = bytes_mut_split_to(src, len);
        assert(bytes_mut_view(m) =~= bytes_mut_view(*old(src)));
        assert(bytes_mut_view(*src) =~= Seq::<u8>::empty());
        Some(m)
    }

    /// Appends the bytes of `msg` to `dst`.
    pub fn encode_frame(&mut self, msg: &BytesMut, dst: &mut BytesMut)
        requires
            bytes_mut_view(*old(dst)).len() + bytes_mut_view(*msg).len() <= usize::MAX,
        ensures
            bytes_mut_view(*final(dst)) == bytes_mut_view(*old(dst)) + bytes_mut_view(*msg),
    {
        bytes_mut_extend_from_slice(dst, bytes_mut_as_slice(msg));
    }
}

} // verus!
