//! The byte containers of the `bytes` crate as the library sees them: each
//! value holds a sequence of bytes, named by `bytes_mut_view` and `bytes_view`.
//! Every function here is a trusted wrapper around one method of that crate;
//! its contract restates what the crate's source does with the contents.

use bytes::{Buf, Bytes, BytesMut};
use smallvec::SmallVec;
use vstd::prelude::*;

verus! {

#[verifier::external_type_specification]
#[verifier::external_body]
pub struct ExBytesMut(BytesMut);

#[verifier::external_type_specification]
#[verifier::external_body]
pub struct ExBytes(Bytes);

/// The bytes a `BytesMut` holds.
pub uninterp spec fn bytes_mut_view(b: BytesMut) -> Seq<u8>;

/// The bytes a `Bytes` holds.
pub uninterp spec fn bytes_view(b: Bytes) -> Seq<u8>;

/// `BytesMut::with_capacity`: an empty buffer (the capacity is not part of the contents).
#[verifier::external_body]
pub(crate) fn bytes_mut_with_capacity(capacity: usize) -> (b: BytesMut)
    ensures
        bytes_mut_view(b) == Seq::<u8>::empty(),
{
    BytesMut::with_capacity(capacity)
}

/// `BytesMut::resize`: truncates to `new_len` bytes, or extends to `new_len`
/// bytes with copies of `value`.
#[verifier::external_body]
pub(crate) fn bytes_mut_resize(b: &mut BytesMut, new_len: usize, value: u8)
    ensures
        bytes_mut_view(*final(b)) == (if new_len <= bytes_mut_view(*old(b)).len() {
            bytes_mut_view(*old(b)).take(new_len as int)
        } else {
            bytes_mut_view(*old(b)) + Seq::new(
                (new_len - bytes_mut_view(*old(b)).len()) as nat,
                |i: int| value,
            )
        }),
{
    b.resize(new_len, value)
}

/// `BytesMut::len`: the number of bytes held.
#[verifier::external_body]
pub(crate) fn bytes_mut_len(b: &BytesMut) -> (n: usize)
    ensures
        n == bytes_mut_view(*b).len(),
{
    b.len()
}

/// `BytesMut::split_to`: moves the first `at` bytes into a new buffer (panics when `at > len`).
#[verifier::external_body]
pub(crate) fn bytes_mut_split_to(b: &mut BytesMut, at: usize) -> (front: BytesMut)
    requires
        at <= bytes_mut_view(*old(b)).len(),
    ensures
        bytes_mut_view(front) == bytes_mut_view(*old(b)).take(at as int),
        bytes_mut_view(*final(b)) == bytes_mut_view(*old(b)).skip(at as int),
{
    b.split_to(at)
}

/// `Buf::advance` on a `BytesMut`: drops the first `n` bytes (panics when `n > len`).
#[verifier::external_body]
pub(crate) fn bytes_mut_advance(b: &mut BytesMut, n: usize)
    requires
        n <= bytes_mut_view(*old(b)).len(),
    ensures
        bytes_mut_view(*final(b)) == bytes_mut_view(*old(b)).skip(n as int),
{
    b.advance(n)
}

/// `BytesMut::extend_from_slice`: appends `data` (the reservation panics when the
/// new length overflows `usize`).
#[verifier::external_body]
pub(crate) fn bytes_mut_extend_from_slice(b: &mut BytesMut, data: &[u8])
    requires
        bytes_mut_view(*old(b)).len() + data@.len() <= usize::MAX,
    ensures
        bytes_mut_view(*final(b)) == bytes_mut_view(*old(b)) + data@,
{
    b.extend_from_slice(data)
}

/// `Deref` of a `BytesMut`: its bytes as a slice.
#[verifier::external_body]
pub(crate) fn bytes_mut_as_slice(b: &BytesMut) -> (s: &[u8])
    ensures
        s@ == bytes_mut_view(*b),
{
    b
}

/// `Bytes::len`: the number of bytes held.
#[verifier::external_body]
pub(crate) fn bytes_len(b: &Bytes) -> (n: usize)
    ensures
        n == bytes_view(*b).len(),
{
    b.len()
}

/// `Bytes::slice(from..)`: the bytes from position `from` on (panics when `from > len`).
#[verifier::external_body]
pub(crate) fn bytes_slice_from(b: &Bytes, from: usize) -> (r: Bytes)
    requires
        from <= bytes_view(*b).len(),
    ensures
        bytes_view(r) == bytes_view(*b).skip(from as int),
{
    b.slice(from..)
}

/// `Buf::advance` on a `Bytes`: drops the first `n` bytes (panics when `n > len`).
#[verifier::external_body]
pub(crate) fn bytes_advance(b: &mut Bytes, n: usize)
    requires
        n <= bytes_view(*old(b)).len(),
    ensures
        bytes_view(*final(b)) == bytes_view(*old(b)).skip(n as int),
{
    b.advance(n)
}

/// `Bytes::clone`: another handle on the same bytes.
#[verifier::external_body]
pub(crate) fn bytes_clone(b: &Bytes) -> (r: Bytes)
    ensures
        bytes_view(r) == bytes_view(*b),
{
    b.clone()
}

/// A short list of buffers. The list of the `smallvec` crate is kept in a
/// private field, since its declaration is refused; `chunks_view` names what it holds.
#[verifier::external_body]
pub struct BufferChunks {
    inner: SmallVec<[BytesMut; 2]>,
}

/// The bytes of each buffer in the list, in order.
pub uninterp spec fn chunks_view(v: BufferChunks) -> Seq<Seq<u8>>;

/// `SmallVec::new`: an empty list of buffers.
#[verifier::external_body]
pub(crate) fn chunks_new() -> (v: BufferChunks)
    ensures
        chunks_view(v) == Seq::<Seq<u8>>::empty(),
{
    BufferChunks { inner: SmallVec::new() }
}

/// `SmallVec::push`: appends a buffer to the list.
#[verifier::external_body]
pub(crate) fn chunks_push(v: &mut BufferChunks, b: BytesMut)
    ensures
        chunks_view(*final(v)) == chunks_view(*old(v)).push(bytes_mut_view(b)),
{
    v.inner.push(b)
}

impl BufferChunks {
    /// `SmallVec::into_vec`: the buffers, in order, as a vector.
    #[verifier::external_body]
    pub fn into_vec(self) -> (r: Vec<BytesMut>)
        ensures
            r@.map_values(|b: BytesMut| bytes_mut_view(b)) == chunks_view(self),
    {
        self.inner.into_vec()
    }
}

} // verus!
