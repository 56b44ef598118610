//! A read buffer over a `BytesMut`: `reads` bytes were read into it, the first
//! `cursor` of them have been consumed, and consumed bytes can be split off
//! without copying.

use crate::bytes_buf::{
    bytes_mut_advance, bytes_mut_as_slice, bytes_mut_resize, bytes_mut_split_to, bytes_mut_view,
    bytes_mut_with_capacity,
};
use crate::connection::opt_view;
use crate::pow2::{is_next_power_of_two, next_power_of_two, pow2_arg_limit};
use bytes::BytesMut;
use vstd::prelude::*;

verus! {

/// A read buffer whose storage can be handed out in pieces.
pub struct IOBuffer {
    cursor: usize,
    reads: usize,
    buffer: Option<BytesMut>,
}

impl IOBuffer {
    /// Consumed bytes never pass read bytes, which never pass the storage.
    pub closed spec fn wf(&self) -> bool {
        self.cursor <= self.reads <= opt_view(self.buffer).len()
    }

    /// Whether the storage is present.
    pub closed spec fn has_storage(&self) -> bool {
        self.buffer is Some
    }

    /// The storage.
    pub closed spec fn storage(&self) -> Seq<u8> {
        opt_view(self.buffer)
    }

    /// The bytes read but not consumed yet.
    pub closed spec fn unconsumed(&self) -> Seq<u8> {
        opt_view(self.buffer).subrange(self.cursor as int, self.reads as int)
    }

    /// A buffer whose storage is the smallest power of two of at least `size`
    /// zero bytes, with nothing read.
    pub fn new(size: usize) -> (b: Self)
        requires
            size <= pow2_arg_limit(),
        ensures
            b.wf(),
            b.has_storage(),
            is_next_power_of_two(size as nat, b.storage().len()),
            b.storage() == Seq::new(b.storage().len(), |i: int| 0u8),
            b.unconsumed() == Seq::<u8>::empty(),
    {
        let size = next_power_of_two(size);
        let mut buffer = bytes_mut_with_capacity(size);
        bytes_mut_resize(&mut buffer, size, 0);
        let b = IOBuffer { buffer: Some(buffer), cursor: 0, reads: 0 };
        assert(b.storage() =~= Seq::new(size as nat, |i: int| 0u8));
        assert(b.unconsumed() =~= Seq::<u8>::empty());
        b
    }

    /// Number of bytes read but not consumed.
    pub fn remaining(&self) -> (n: usize)
        requires
            self.wf(),
        ensures
            n == self.unconsumed().len(),
    {
        self.reads - self.cursor
    }

    /// The bytes read but not consumed (none without storage).
    pub fn remaining_bytes(&self) -> (s: &[u8])
        requires
            self.wf(),
        ensures
            s@ == self.unconsumed(),
    {
        match &self.buffer {
            Some(b) => &bytes_mut_as_slice(b)[self.cursor..self.reads],
            None => {
                let e: &[u8] = &[];
                assert(e@ =~= self.unconsumed());
                e
            },
        }
    }

    /// Consumes `n` more bytes.
    pub fn advance(&mut self, n: usize)
        requires
            old(self).wf(),
            n <= old(self).unconsumed().len(),
        ensures
            final(self).wf(),
            final(self).storage() == old(self).storage(),
            final(self).unconsumed() == old(self).unconsumed().skip(n as int),
    {
        self.cursor = self.cursor + n;
        assert(self.unconsumed() =~= old(self).unconsumed().skip(n as int));
    }

    /// Records that `reads` bytes were read into the storage, none consumed yet.
    pub fn set_cursor(&mut self, reads: usize)
        requires
            old(self).wf(),
            reads <= old(self).storage().len(),
        ensures
            final(self).wf(),
            final(self).storage() == old(self).storage(),
            final(self).unconsumed() == old(self).storage().take(reads as int),
    {
        self.cursor = 0;
        self.reads = reads;
        assert(self.unconsumed() =~= self.storage().take(reads as int));
    }

    /// Splits off the next `at` unconsumed bytes; the consumed bytes before
    /// them are dropped from the storage.
    pub fn split_to(&mut self, at: usize) -> (front: BytesMut)
        requires
            old(self).wf(),
            old(self).has_storage(),
            at <= old(self).unconsumed().len(),
        ensures
            final(self).wf(),
            final(self).has_storage(),
            bytes_mut_view(front) == old(self).unconsumed().take(at as int),
            final(self).unconsumed() == old(self).unconsumed().skip(at as int),
    {
        let ghost u = self.unconsumed();
        let mut buffer = self.buffer.take().unwrap();
        if self.cursor > 0 {
            bytes_mut_advance(&mut buffer, self.cursor);
            self.reads = self.reads - self.cursor;
            self.cursor = 0;
        }
        let ret = bytes_mut_split_to(&mut buffer, at);
        self.reads = self.reads - at;
        self.buffer = Some(buffer);
        assert(bytes_mut_view(ret) =~= u.take(at as int));
        assert(self.unconsumed() =~= u.skip(at as int));
        ret
    }

    /// Moves up to `buf.len()` unconsumed bytes into the front of `buf` and
    /// returns how many were moved.
    pub fn read_into(&mut self, buf: &mut [u8]) -> (k: usize)
        requires
            old(self).wf(),
        ensures
            final(self).wf(),
            k == (if old(buf)@.len() < old(self).unconsumed().len() {
                old(buf)@.len()
            } else {
                old(self).unconsumed().len()
            }),
            final(buf)@.len() == old(buf)@.len(),
            final(buf)@.take(k as int) == old(self).unconsumed().take(k as int),
            final(buf)@.skip(k as int) == old(buf)@.skip(k as int),
            final(self).unconsumed() == old(self).unconsumed().skip(k as int),
    {
        let rem = self.remaining();
        let n = if buf.len() < rem {
            buf.len()
        } else {
            rem
        };
        let ghost b0 = buf@;
        {
            let src = self.remaining_bytes();
            let mut i: usize = 0;
            while i < n
                invariant
                    n <= src@.len(),
                    n <= buf@.len(),
                    buf@.len() == b0.len(),
                    i <= n,
                    forall|j: int| 0 <= j < i ==> buf@[j] == src@[j],
                    forall|j: int| i <= j < b0.len() ==> buf@[j] == b0[j],
                decreases n - i,
            {
                buf[i] = src[i];
                i = i + 1;
            }
            assert(buf@.take(n as int) =~= src@.take(n as int));
            assert(buf@.skip(n as int) =~= b0.skip(n as int));
        }
        self.advance(n);
        n
    }
}

} // verus!
