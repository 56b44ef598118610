//! An elastic ring buffer of bytes: a first-in first-out queue over a
//! power-of-two sized array that grows when a write does not fit.

use crate::pow2::{is_next_power_of_two, is_power_of_two, next_power_of_two, pow2_arg_limit, pow2_arg_limit_exec};
use vstd::prelude::*;

verus! {

/// The slot `i` places after slot `r` in a ring of `size` slots (for `0 <= i <= size`).
pub open spec fn ring_pos(r: int, i: int, size: int) -> int {
    if r + i < size {
        r + i
    } else {
        r + i - size
    }
}

/// How many bytes a peek of `n` bytes shows of `len` buffered bytes:
/// `n`, or everything when `n` is zero or more than is buffered.
pub open spec fn peek_len(n: nat, len: nat) -> nat {
    if n == 0 || n > len {
        len
    } else {
        n
    }
}

/// How many bytes a discard or a read of `n` bytes takes of `len` buffered bytes.
pub open spec fn take_len(n: nat, len: nat) -> nat {
    if n < len {
        n
    } else {
        len
    }
}

/// The contents after writing `data` behind `contents`.
pub open spec fn spec_write(contents: Seq<u8>, data: Seq<u8>) -> Seq<u8> {
    contents + data
}

/// The contents after consuming the first `n` bytes (or all of them, if fewer are buffered).
pub open spec fn spec_consume(contents: Seq<u8>, n: nat) -> Seq<u8> {
    contents.skip(take_len(n, contents.len()) as int)
}

/// A ring buffer of bytes with read position `r`, write position `w` and an
/// explicit empty flag (when `r == w` the ring is either empty or full).
pub struct Buffer {
    buffer: Vec<u8>,
    size: usize,
    r: usize,
    w: usize,
    empty: bool,
}

impl View for Buffer {
    type V = Seq<u8>;

    /// The buffered bytes, oldest first.
    closed spec fn view(&self) -> Seq<u8> {
        Seq::new(self.count(), |i: int| self.buffer@[ring_pos(self.r as int, i, self.size as int)])
    }
}

impl Buffer {
    /// Internal consistency of the positions and the storage.
    pub closed spec fn wf(&self) -> bool {
        &&& self.buffer@.len() == self.size
        &&& self.size > 0
        &&& is_power_of_two(self.size as nat)
        &&& self.r < self.size
        &&& self.w < self.size
        &&& self.empty ==> self.r == self.w
    }

    /// The slot the oldest buffered byte sits in.
    pub closed spec fn read_pos(&self) -> nat {
        self.r as nat
    }

    /// The slot the next written byte goes to.
    pub closed spec fn write_pos(&self) -> nat {
        self.w as nat
    }

    /// Number of slots of the ring.
    pub closed spec fn capacity(&self) -> nat {
        self.size as nat
    }

    closed spec fn count(&self) -> nat {
        if self.empty {
            0
        } else if self.w > self.r {
            (self.w - self.r) as nat
        } else {
            (self.size - self.r + self.w) as nat
        }
    }

    proof fn lemma_count(&self)
        requires
            self.wf(),
        ensures
            self.count() <= self.size,
            self@.len() == self.count(),
            self.empty <==> self.count() == 0,
            ring_pos(self.r as int, self.count() as int, self.size as int) == self.w,
    {
    }

    /// An empty buffer whose capacity is the smallest power of two that is at least `size`.
    pub fn new(size: usize) -> (b: Self)
        requires
            size <= pow2_arg_limit(),
        ensures
            b.wf(),
            b@ == Seq::<u8>::empty(),
            b.read_pos() == 0,
            b.write_pos() == 0,
            is_next_power_of_two(size as nat, b.capacity()),
    {
        let size = next_power_of_two(size);
        let mut buffer: Vec<u8> = Vec::with_capacity(size);
        let mut i: usize = 0;
        while i < size
            invariant
                i <= size,
                buffer@.len() == i,
            decreases size - i,
        {
            buffer.push(0);
            i = i + 1;
        }
        let b = Buffer { buffer, size, r: 0, w: 0, empty: true };
        assert(b@ =~= Seq::<u8>::empty());
        b
    }

    /// Whether nothing is buffered.
    pub fn is_empty(&self) -> (r: bool)
        requires
            self.wf(),
        ensures
            r == (self@.len() == 0),
    {
        proof {
            self.lemma_count();
        }
        self.empty
    }

    /// Resets the read and write positions to zero, dropping all buffered bytes.
    pub fn reset(&mut self)
        requires
            old(self).wf(),
        ensures
            final(self).wf(),
            final(self)@ == Seq::<u8>::empty(),
            final(self).read_pos() == 0,
            final(self).write_pos() == 0,
            final(self).capacity() == old(self).capacity(),
    {
        self.r = 0;
        self.w = 0;
        self.empty = true;
        assert(self@ =~= Seq::<u8>::empty());
    }

    /// Number of buffered bytes.
    pub fn len(&self) -> (n: usize)
        requires
            self.wf(),
        ensures
            n == self@.len(),
    {
        proof {
            self.lemma_count();
        }
        if self.empty {
            0
        } else if self.w > self.r {
            self.w - self.r
        } else {
            self.size - self.r + self.w
        }
    }

    /// The next `n` bytes (all bytes when `n` is zero or larger than what is
    /// buffered) without advancing the read position, as the part up to the end
    /// of the ring followed by the part that wraps around.
    pub fn peek(&self, n: usize) -> (parts: (&[u8], &[u8]))
        requires
            self.wf(),
        ensures
            parts.0@ + parts.1@ == self@.take(peek_len(n as nat, self@.len()) as int),
            parts.0@.len() == (if peek_len(n as nat, self@.len()) <= self.capacity() - self.read_pos() {
                peek_len(n as nat, self@.len())
            } else {
                (self.capacity() - self.read_pos()) as nat
            }),
    {
        let len = self.len();
        let s = self.buffer.as_slice();
        if len == 0 {
            let e = &s[0..0];
            assert(e@ + e@ =~= self@.take(0));
            return (e, e);
        }
        let m = if n == 0 || n > len {
            len
        } else {
            n
        };
        proof {
            self.lemma_count();
        }
        if m <= self.size - self.r {
            let head = &s[self.r..self.r + m];
            let tail = &s[0..0];
            assert(head@ + tail@ =~= self@.take(m as int));
            (head, tail)
        } else {
            let c1 = self.size - self.r;
            let head = &s[self.r..self.size];
            let tail = &s[0..m - c1];
            assert(head@ + tail@ =~= self@.take(m as int));
            (head, tail)
        }
    }

    /// All buffered bytes, without advancing the read position.
    pub fn peek_all(&self) -> (parts: (&[u8], &[u8]))
        requires
            self.wf(),
        ensures
            parts.0@ + parts.1@ == self@,
            parts.0@.len() == (if self@.len() <= self.capacity() - self.read_pos() {
                self@.len()
            } else {
                (self.capacity() - self.read_pos()) as nat
            }),
    {
        let parts = self.peek(0);
        assert(self@.take(self@.len() as int) =~= self@);
        parts
    }

    /// Skips the next `n` bytes (all of them when fewer are buffered) by
    /// advancing the read position, and returns how many were skipped; skipping
    /// all of them (with `n > 0`) resets both positions to slot 0.
    pub fn discard(&mut self, n: usize) -> (r: Option<usize>)
        requires
            old(self).wf(),
        ensures
            final(self).wf(),
            final(self).capacity() == old(self).capacity(),
            r == Some(take_len(n as nat, old(self)@.len()) as usize),
            final(self)@ == spec_consume(old(self)@, n as nat),
            final(self).read_pos() == (if n == 0 {
                old(self).read_pos() as int
            } else if n >= old(self)@.len() {
                0
            } else {
                ring_pos(old(self).read_pos() as int, n as int, old(self).capacity() as int)
            }),
    {
        proof {
            self.lemma_count();
        }
        if n == 0 {
            assert(self@.skip(0) =~= self@);
            return Some(0);
        }
        let len = self.len();
        if n < len {
            let ghost old_view = self@;
            let ghost r0 = self.r as int;
            let ghost size = self.size as int;
            self.r = if n < self.size - self.r {
                self.r + n
            } else {
                n - (self.size - self.r)
            };
            proof {
                assert(self.count() == old_view.len() - n);
                assert forall|i: int| 0 <= i < self.count() implies ring_pos(self.r as int, i, size)
                    == ring_pos(r0, n + i, size) by {}
                assert(self@ =~= old_view.skip(n as int));
            }
            Some(n)
        } else {
            self.reset();
            proof {
                assert(self@ =~= spec_consume(old(self)@, n as nat));
            }
            Some(len)
        }
    }

    /// Moves out up to `buf.len()` bytes into the front of `buf`, advancing the
    /// read position. Returns the number of bytes moved, or `None` when `buf` is
    /// not empty and nothing is buffered; moving out all of them resets both
    /// positions to slot 0.
    pub fn read(&mut self, buf: &mut [u8]) -> (r: Option<usize>)
        requires
            old(self).wf(),
        ensures
            final(self).wf(),
            final(self).capacity() == old(self).capacity(),
            final(buf)@.len() == old(buf)@.len(),
            match r {
                None => {
                    &&& old(buf)@.len() > 0
                    &&& old(self)@.len() == 0
                    &&& final(self)@ == old(self)@
                    &&& final(self).read_pos() == old(self).read_pos()
                    &&& final(buf)@ == old(buf)@
                },
                Some(k) => {
                    &&& k == take_len(old(buf)@.len(), old(self)@.len())
                    &&& final(self).read_pos() == (if k == 0 {
                        old(self).read_pos() as int
                    } else if k == old(self)@.len() {
                        0
                    } else {
                        ring_pos(old(self).read_pos() as int, k as int, old(self).capacity() as int)
                    })
                    &&& final(buf)@.take(k as int) == old(self)@.take(k as int)
                    &&& final(buf)@.skip(k as int) == old(buf)@.skip(k as int)
                    &&& final(self)@ == spec_consume(old(self)@, old(buf)@.len())
                },
            },
    {
        proof {
            self.lemma_count();
        }
        let blen = buf.len();
        if blen == 0 {
            assert(self@.skip(0) =~= self@);
            assert(buf@.take(0) =~= self@.take(0));
            return Some(0);
        }
        if self.empty {
            return None;
        }
        let len = self.len();
        let m = if blen < len {
            blen
        } else {
            len
        };
        let ghost view = self@;
        let ghost buf0 = buf@;
        let mut i: usize = 0;
        let mut pos = self.r;
        while i < m
            invariant
                self.wf(),
                self@ == view,
                view.len() == len,
                m <= len,
                m <= blen,
                blen == buf@.len(),
                i <= m,
                pos == ring_pos(self.r as int, i as int, self.size as int),
                forall|j: int| 0 <= j < i ==> buf@[j] == view[j],
                forall|j: int| i <= j < blen ==> buf@[j] == buf0[j],
            decreases m - i,
        {
            buf[i] = self.buffer[pos];
            pos = if pos + 1 == self.size {
                0
            } else {
                pos + 1
            };
            i = i + 1;
        }
        proof {
            assert(buf@.take(m as int) =~= view.take(m as int));
            assert(buf@.skip(m as int) =~= buf0.skip(m as int));
        }
        if m == len {
            self.reset();
            assert(self@ =~= view.skip(m as int));
        } else {
            let ghost r0 = self.r as int;
            let ghost size = self.size as int;
            self.r = pos;
            proof {
                assert(self.count() == view.len() - m);
                assert forall|j: int| 0 <= j < self.count() implies ring_pos(self.r as int, j, size)
                    == ring_pos(r0, m + j, size) by {}
                assert(self@ =~= view.skip(m as int));
            }
        }
        Some(m)
    }

    /// Appends one byte; there must be a free slot.
    fn push_byte(&mut self, b: u8)
        requires
            old(self).wf(),
            old(self)@.len() < old(self).capacity(),
        ensures
            final(self).wf(),
            final(self).capacity() == old(self).capacity(),
            final(self)@ == old(self)@.push(b),
    {
        proof {
            self.lemma_count();
        }
        let ghost old_view = self@;
        let ghost c = self.count() as int;
        let w = self.w;
        self.buffer.set(w, b);
        self.w = if w + 1 == self.size {
            0
        } else {
            w + 1
        };
        self.empty = false;
        proof {
            assert(self.count() == c + 1);
            assert forall|i: int| 0 <= i < c implies ring_pos(self.r as int, i, self.size as int)
                != w by {}
            assert(self@ =~= old_view.push(b));
        }
    }

    /// Moves the buffered bytes into a ring of `new_size` slots, starting at slot zero.
    fn grow(&mut self, need: usize)
        requires
            old(self).wf(),
            old(self)@.len() < need <= pow2_arg_limit(),
        ensures
            final(self).wf(),
            final(self)@ == old(self)@,
            is_next_power_of_two(need as nat, final(self).capacity()),
    {
        proof {
            self.lemma_count();
        }
        let new_size = next_power_of_two(need);
        let len = self.len();
        let ghost view = self@;
        let mut nb: Vec<u8> = Vec::with_capacity(new_size);
        let mut i: usize = 0;
        let mut pos = self.r;
        while i < len
            invariant
                self.wf(),
                self@ == view,
                view.len() == len,
                len < new_size,
                i <= len,
                nb@.len() == i,
                pos == ring_pos(self.r as int, i as int, self.size as int),
                forall|j: int| 0 <= j < i ==> nb@[j] == view[j],
            decreases len - i,
        {
            nb.push(self.buffer[pos]);
            pos = if pos + 1 == self.size {
                0
            } else {
                pos + 1
            };
            i = i + 1;
        }
        while i < new_size
            invariant
                len <= i <= new_size,
                nb@.len() == i,
                forall|j: int| 0 <= j < len ==> nb@[j] == view[j],
            decreases new_size - i,
        {
            nb.push(0);
            i = i + 1;
        }
        self.buffer = nb;
        self.size = new_size;
        self.r = 0;
        self.w = len;
        self.empty = len == 0;
        assert(self@ =~= view);
    }

    /// Appends all of `data`, growing the ring to the smallest power of two that
    /// holds everything when it does not fit. Returns the number of bytes
    /// written, or `None` (leaving the buffer unchanged) when the grown ring
    /// would not fit in memory addresses.
    pub fn write(&mut self, data: &[u8]) -> (r: Option<usize>)
        requires
            old(self).wf(),
        ensures
            final(self).wf(),
            match r {
                None => {
                    &&& old(self)@.len() + data@.len() > pow2_arg_limit()
                    &&& final(self)@ == old(self)@
                    &&& final(self).capacity() == old(self).capacity()
                },
                Some(k) => {
                    &&& k == data@.len()
                    &&& final(self)@ == spec_write(old(self)@, data@)
                    &&& (if old(self)@.len() + data@.len() <= old(self).capacity() {
                        final(self).capacity() == old(self).capacity()
                    } else {
                        is_next_power_of_two(
                            old(self)@.len() + data@.len(),
                            final(self).capacity(),
                        )
                    })
                },
            },
    {
        proof {
            self.lemma_count();
        }
        let n = data.len();
        let ghost view = self@;
        if n == 0 {
            assert(view + data@ =~= view);
            return Some(0);
        }
        let len = self.len();
        let free = self.size - len;
        if n > free {
            if n > pow2_arg_limit_exec() || len > pow2_arg_limit_exec() - n {
                return None;
            }
            self.grow(len + n);
        }
        let ghost cap = self.capacity();
        let mut i: usize = 0;
        while i < n
            invariant
                self.wf(),
                self.capacity() == cap,
                view.len() == len,
                len + n <= cap,
                n == data@.len(),
                i <= n,
                self@ == view + data@.take(i as int),
            decreases n - i,
        {
            proof {
                self.lemma_count();
            }
            self.push_byte(data[i]);
            assert(view + data@.take(i + 1) =~= (view + data@.take(i as int)).push(data@[i as int]));
            i = i + 1;
        }
        assert(data@.take(n as int) =~= data@);
        Some(n)
    }
}

/// A read large enough for everything gives back, in order, the bytes
/// buffered before and the bytes written after, and leaves nothing behind.
pub proof fn law_read_returns_writes(contents: Seq<u8>, data: Seq<u8>, buf_len: nat)
    requires
        buf_len >= contents.len() + data.len(),
    ensures
        take_len(buf_len, spec_write(contents, data).len()) == contents.len() + data.len(),
        spec_write(contents, data).take((contents.len() + data.len()) as int) == contents + data,
        spec_consume(spec_write(contents, data), buf_len) == Seq::<u8>::empty(),
{
    assert(spec_write(contents, data).take((contents.len() + data.len()) as int) =~= contents + data);
    assert(spec_consume(spec_write(contents, data), buf_len) =~= Seq::<u8>::empty());
}

/// Bytes leave in the order they came in: consuming the older bytes first
/// leaves exactly the newer ones.
pub proof fn law_first_in_first_out(contents: Seq<u8>, data: Seq<u8>)
    ensures
        spec_consume(spec_write(contents, data), contents.len()) == data,
{
    assert(spec_consume(spec_write(contents, data), contents.len()) =~= data);
}

/// Consuming `a` bytes and then `b` bytes consumes `a + b` bytes.
pub proof fn law_consume_adds_up(contents: Seq<u8>, a: nat, b: nat)
    ensures
        spec_consume(spec_consume(contents, a), b) == spec_consume(contents, a + b),
{
    assert(spec_consume(spec_consume(contents, a), b) =~= spec_consume(contents, a + b));
}

/// The ring of a well-formed buffer always has a power-of-two number of slots.
pub proof fn law_capacity_is_power_of_two(b: &Buffer)
    requires
        b.wf(),
    ensures
        is_power_of_two(b.capacity()),
        b@.len() <= b.capacity(),
{
    b.lemma_count();
}

} // verus!
