//! A fixed-size read buffer over a vector: `reads` bytes were read into it,
//! and the first `cursor` of them have been consumed.

use vstd::prelude::*;

verus! {

/// A read buffer of fixed size.
pub struct IOBuffer {
    cursor: usize,
    reads: usize,
    buffer: Vec<u8>,
}

impl IOBuffer {
    /// Consumed bytes never pass read bytes, which never pass the storage.
    pub closed spec fn wf(&self) -> bool {
        self.cursor <= self.reads <= self.buffer@.len()
    }

    /// The storage.
    pub closed spec fn storage(&self) -> Seq<u8> {
        self.buffer@
    }

    /// The bytes read but not consumed yet.
    pub closed spec fn unconsumed(&self) -> Seq<u8> {
        self.buffer@.subrange(self.cursor as int, self.reads as int)
    }

    /// A buffer of `size` zero bytes with nothing read.
    pub fn new(size: usize) -> (b: Self)
        ensures
            b.wf(),
            b.storage() == Seq::new(size as nat, |i: int| 0u8),
            b.unconsumed() == Seq::<u8>::empty(),
    {
        let mut buffer: Vec<u8> = Vec::with_capacity(size);
        let mut i: usize = 0;
        while i < size
            invariant
                i <= size,
                buffer@ == Seq::new(i as nat, |j: int| 0u8),
            decreases size - i,
        {
            buffer.push(0);
            i = i + 1;
            assert(buffer@ =~= Seq::new(i as nat, |j: int| 0u8));
        }
        let b = IOBuffer { buffer, cursor: 0, reads: 0 };
        assert(b.unconsumed() =~= Seq::<u8>::empty());
        b
    }

    /// Number of bytes read but not consumed.
    pub fn remaining(&self) -> (n: usize)
        requires
            self.wf(),
        ensures
            n == self.unconsumed().len(),
    {
        self.reads - self.cursor
    }

    /// The bytes read but not consumed.
    pub fn remaining_bytes(&self) -> (s: &[u8])
        requires
            self.wf(),
        ensures
            s@ == self.unconsumed(),
    {
        &self.buffer.as_slice()[self.cursor..self.reads]
    }

    /// Consumes `n` more bytes.
    pub fn advance(&mut self, n: usize)
        requires
            old(self).wf(),
            n <= old(self).unconsumed().len(),
        ensures
            final(self).wf(),
            final(self).storage() == old(self).storage(),
            final(self).unconsumed() == old(self).unconsumed().skip(n as int),
    {
        self.cursor = self.cursor + n;
        assert(self.unconsumed() =~= old(self).unconsumed().skip(n as int));
    }

    /// Records that `reads` bytes were read into the storage, none consumed yet.
    pub fn read(&mut self, reads: usize)
        requires
            old(self).wf(),
            reads <= old(self).storage().len(),
        ensures
            final(self).wf(),
            final(self).storage() == old(self).storage(),
            final(self).unconsumed() == old(self).storage().take(reads as int),
    {
        self.cursor = 0;
        self.reads = reads;
        assert(self.unconsumed() =~= self.storage().take(reads as int));
    }

    /// The whole storage.
    pub fn as_slice(&self) -> (s: &[u8])
        ensures
            s@ == self.storage(),
    {
        self.buffer.as_slice()
    }
}

impl core::ops::Deref for IOBuffer {
    type Target = [u8];

    fn deref(&self) -> (s: &[u8])
        ensures
            s@ == self.storage(),
    {
        self.as_slice()
    }
}

} // verus!
