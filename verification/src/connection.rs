//! The byte queues of a connection. Inbound data lives in two buffers: the
//! bytes of the current read (`io_buffer`) behind bytes held back from
//! earlier reads (`in_buffer`); together they form one stream that the handler
//! takes from the front. Outbound data that the socket did not take at once
//! waits in a queue of byte chunks.

use crate::bytes_buf::{
    bytes_advance, bytes_clone, bytes_len, bytes_slice_from, bytes_view,
    bytes_mut_advance, bytes_mut_as_slice, bytes_mut_extend_from_slice, bytes_mut_len,
    bytes_mut_split_to, bytes_mut_view, bytes_mut_with_capacity, chunks_new, chunks_push, chunks_view, BufferChunks,
};
use bytes::{Bytes, BytesMut};
use std::collections::VecDeque;
use vstd::prelude::*;

verus! {

/// The bytes of an optional buffer (none when absent).
pub open spec fn opt_view(b: Option<BytesMut>) -> Seq<u8> {
    match b {
        Some(x) => bytes_mut_view(x),
        None => Seq::<u8>::empty(),
    }
}

/// How many bytes a request takes of `total` available ones: `n`, or all when no count is given.
pub open spec fn requested_len(n: Option<usize>, total: nat) -> nat {
    match n {
        Some(k) => k as nat,
        None => total,
    }
}

/// Data seen by a peek: a view into the buffers, or a copy when it spans both.
pub enum PeekData<'a> {
    Raw(&'a [u8]),
    BytesMut(BytesMut),
}

impl<'a> PeekData<'a> {
    /// The bytes shown.
    pub open spec fn spec_bytes(&self) -> Seq<u8> {
        match self {
            PeekData::Raw(s) => s@,
            PeekData::BytesMut(b) => bytes_mut_view(*b),
        }
    }

    /// The bytes shown, as a slice.
    pub fn as_slice(&self) -> (s: &[u8])
        ensures
            s@ == self.spec_bytes(),
    {
        match self {
            PeekData::Raw(s) => s,
            PeekData::BytesMut(b) => bytes_mut_as_slice(b),
        }
    }
}

impl<'a> core::ops::Deref for PeekData<'a> {
    type Target = [u8];

    fn deref(&self) -> (s: &[u8])
        ensures
            s@ == self.spec_bytes(),
    {
        self.as_slice()
    }
}

/// Copies the first `len` bytes of `src` into `dst` from position `at` on.
fn copy_into(dst: &mut [u8], at: usize, src: &[u8], len: usize)
    requires
        len <= src@.len(),
        at + len <= old(dst)@.len(),
    ensures
        final(dst)@ == old(dst)@.take(at as int) + src@.take(len as int) + old(dst)@.skip(at + len),
{
    let ghost d0 = dst@;
    let dlen = dst.len();
    let mut i: usize = 0;
    while i < len
        invariant
            dlen == d0.len(),
            len <= src@.len(),
            at + len <= d0.len(),
            i <= len,
            dst@.len() == d0.len(),
            forall|j: int| 0 <= j < at ==> dst@[j] == d0[j],
            forall|j: int| 0 <= j < i ==> dst@[at + j] == src@[j],
            forall|j: int| at + i <= j < d0.len() ==> dst@[j] == d0[j],
        decreases len - i,
    {
        dst[at + i] = src[i];
        i = i + 1;
    }
    assert(dst@ =~= d0.take(at as int) + src@.take(len as int) + d0.skip(at + len));
}

/// Flattening a list of at most two sequences concatenates them.
proof fn lemma_flatten_short(v: Seq<Seq<u8>>)
    requires
        v.len() <= 2,
    ensures
        v.len() == 0 ==> v.flatten() == Seq::<u8>::empty(),
        v.len() == 1 ==> v.flatten() == v[0],
        v.len() == 2 ==> v.flatten() == v[0] + v[1],
{
    reveal_with_fuel(Seq::<_>::flatten, 3);
    if v.len() == 1 {
        assert(v.drop_first() =~= Seq::<Seq<u8>>::empty());
        assert(v[0] + Seq::<u8>::empty() =~= v[0]);
    }
    if v.len() == 2 {
        assert(v.drop_first().drop_first() =~= Seq::<Seq<u8>>::empty());
        assert(v.drop_first()[0] == v[1]);
        assert(v[1] + Seq::<u8>::empty() =~= v[1]);
    }
}

/// The held-back bytes left once the next `k` inbound bytes are taken:
/// taking stops at the held-back bytes first, and once they are all taken
/// none are held back.
pub open spec fn in_after_taking(in_seq: Seq<u8>, k: nat) -> Seq<u8> {
    if k <= in_seq.len() {
        in_seq.skip(k as int)
    } else {
        Seq::<u8>::empty()
    }
}

/// The bytes of the current read left once the next `k` inbound bytes are
/// taken: untouched while the held-back bytes suffice.
pub open spec fn io_after_taking(in_seq: Seq<u8>, io_seq: Seq<u8>, k: nat) -> Seq<u8> {
    if k <= in_seq.len() {
        io_seq
    } else {
        io_seq.skip(k - in_seq.len())
    }
}

/// The inbound buffers of a connection.
pub struct ReadBuffers {
    /// Bytes kept from earlier reads.
    pub in_buffer: Option<BytesMut>,
    /// Bytes of the read being handled.
    pub io_buffer: Option<BytesMut>,
}

impl ReadBuffers {
    pub open spec fn in_seq(&self) -> Seq<u8> {
        opt_view(self.in_buffer)
    }

    pub open spec fn io_seq(&self) -> Seq<u8> {
        opt_view(self.io_buffer)
    }

    /// All inbound bytes, oldest first.
    pub open spec fn contents(&self) -> Seq<u8> {
        self.in_seq() + self.io_seq()
    }

    /// The two buffers together hold no more bytes than a `usize` counts.
    pub open spec fn wf(&self) -> bool {
        self.in_seq().len() + self.io_seq().len() <= usize::MAX
    }

    /// Whether a request for `n` bytes can be served: no more than is
    /// available is asked for, and there is a buffer to take from.
    pub open spec fn can_serve(&self, n: Option<usize>) -> bool {
        &&& requested_len(n, self.contents().len()) <= self.contents().len()
        &&& (self.in_seq().len() > 0 || self.io_buffer is Some)
    }

    /// No buffers.
    pub fn new() -> (r: Self)
        ensures
            r.in_buffer is None,
            r.io_buffer is None,
    {
        ReadBuffers { in_buffer: None, io_buffer: None }
    }

    /// Number of bytes kept from earlier reads.
    pub fn in_buf_len(&self) -> (n: usize)
        ensures
            n == self.in_seq().len(),
    {
        match &self.in_buffer {
            Some(b) => bytes_mut_len(b),
            None => 0,
        }
    }

    /// Number of bytes of the current read.
    pub fn io_buf_len(&self) -> (n: usize)
        ensures
            n == self.io_seq().len(),
    {
        match &self.io_buffer {
            Some(b) => bytes_mut_len(b),
            None => 0,
        }
    }

    /// Takes the next `n` bytes (all bytes when `n` is `None`) as one
    /// contiguous buffer. `None`, with nothing taken, when more is asked for
    /// than is available or there is no buffer to take from.
    pub fn next_contiguous(&mut self, n: Option<usize>) -> (r: Option<BytesMut>)
        requires
            old(self).wf(),
        ensures
            final(self).wf(),
            final(self).io_buffer is Some == old(self).io_buffer is Some,
            match r {
                None => {
                    &&& !old(self).can_serve(n)
                    &&& *final(self) == *old(self)
                },
                Some(d) => {
                    let k = requested_len(n, old(self).contents().len());
                    &&& old(self).can_serve(n)
                    &&& bytes_mut_view(d) == old(self).contents().take(k as int)
                    &&& final(self).contents() == old(self).contents().skip(k as int)
                    &&& final(self).in_seq() == in_after_taking(old(self).in_seq(), k as nat)
                    &&& final(self).io_seq() == io_after_taking(old(self).in_seq(), old(self).io_seq(), k as nat)
                    &&& (final(self).in_buffer is Some <==> (old(self).in_buffer is Some && (
                    old(self).in_seq().len() == 0 || k <= old(self).in_seq().len())))
                },
            },
    {
        let in_len = self.in_buf_len();
        let io_len = self.io_buf_len();
        let total = in_len + io_len;
        let ghost c = self.contents();
        let actual = match n {
            Some(k) => {
                if k > total {
                    return None;
                }
                k
            },
            None => total,
        };
        if in_len == 0 {
            match self.io_buffer.as_mut() {
                Some(io) => {
                    let data = bytes_mut_split_to(io, actual);
                    assert(old(self).in_seq() =~= Seq::<u8>::empty());
                    assert(c =~= old(self).io_seq());
                    assert(self.contents() =~= c.skip(actual as int));
                    return Some(data);
                },
                None => {
                    return None;
                },
            }
        }
        let mut in_buf = self.in_buffer.take().unwrap();
        if actual <= in_len {
            let data = bytes_mut_split_to(&mut in_buf, actual);
            self.in_buffer = Some(in_buf);
            assert(self.contents() =~= c.skip(actual as int));
            assert(bytes_mut_view(data) =~= c.take(actual as int));
            return Some(data);
        }
        let copy_by_io = actual - in_len;
        let io = self.io_buffer.as_mut().unwrap();
        let head = bytes_mut_as_slice(io);
        let part = &head[0..copy_by_io];
        bytes_mut_extend_from_slice(&mut in_buf, part);
        bytes_mut_advance(io, copy_by_io);
        assert(self.contents() =~= c.skip(actual as int));
        assert(bytes_mut_view(in_buf) =~= c.take(actual as int));
        Some(in_buf)
    }

    /// The next `n` bytes (all bytes when `n` is `None`) without taking them:
    /// a view into one buffer, or a copy exactly when they span both (more
    /// is asked for than the held-back buffer holds, and it holds some).
    /// `None` when more is asked for than is available or there is no buffer
    /// to look into.
    pub fn peek(&self, n: Option<usize>) -> (r: Option<PeekData<'_>>)
        requires
            self.wf(),
        ensures
            match r {
                None => !self.can_serve(n),
                Some(d) => {
                    &&& self.can_serve(n)
                    &&& d.spec_bytes() == self.contents().take(
                        requested_len(n, self.contents().len()) as int,
                    )
                    &&& (d is BytesMut <==> (self.in_seq().len() > 0 && requested_len(
                        n,
                        self.contents().len(),
                    ) > self.in_seq().len()))
                },
            },
    {
        let in_len = self.in_buf_len();
        let io_len = self.io_buf_len();
        let total = in_len + io_len;
        let ghost c = self.contents();
        let actual = match n {
            Some(k) => {
                if k > total {
                    return None;
                }
                k
            },
            None => total,
        };
        if in_len == 0 {
            match &self.io_buffer {
                Some(io) => {
                    let s = bytes_mut_as_slice(io);
                    let part = &s[0..actual];
                    assert(c =~= self.io_seq());
                    assert(part@ =~= c.take(actual as int));
                    return Some(PeekData::Raw(part));
                },
                None => {
                    return None;
                },
            }
        }
        let in_buf = self.in_buffer.as_ref().unwrap();
        let in_s = bytes_mut_as_slice(in_buf);
        if actual <= in_len {
            let part = &in_s[0..actual];
            assert(part@ =~= c.take(actual as int));
            return Some(PeekData::Raw(part));
        }
        let copy_by_io = actual - in_len;
        let io = self.io_buffer.as_ref().unwrap();
        let io_s = bytes_mut_as_slice(io);
        let mut data = bytes_mut_with_capacity(actual);
        bytes_mut_extend_from_slice(&mut data, in_s);
        bytes_mut_extend_from_slice(&mut data, &io_s[0..copy_by_io]);
        assert(bytes_mut_view(data) =~= c.take(actual as int));
        Some(PeekData::BytesMut(data))
    }

    /// Drops the next `n` bytes (all bytes when `n` is `None`) and returns how
    /// many were dropped; the held-back buffer is released once emptied.
    /// `None`, with nothing dropped, when more is asked for than is available
    /// or there is no buffer to drop from.
    pub fn discard(&mut self, n: Option<usize>) -> (r: Option<usize>)
        requires
            old(self).wf(),
        ensures
            final(self).wf(),
            final(self).io_buffer is Some == old(self).io_buffer is Some,
            match r {
                None => {
                    &&& !old(self).can_serve(n)
                    &&& *final(self) == *old(self)
                },
                Some(k) => {
                    &&& old(self).can_serve(n)
                    &&& k == requested_len(n, old(self).contents().len())
                    &&& final(self).contents() == old(self).contents().skip(k as int)
                    &&& final(self).in_seq() == in_after_taking(old(self).in_seq(), k as nat)
                    &&& final(self).io_seq() == io_after_taking(old(self).in_seq(), old(self).io_seq(), k as nat)
                    &&& (final(self).in_buffer is Some <==> (old(self).in_buffer is Some && (
                    old(self).in_seq().len() == 0 || k < old(self).in_seq().len())))
                },
            },
    {
        let in_len = self.in_buf_len();
        let io_len = self.io_buf_len();
        let total = in_len + io_len;
        let ghost c = self.contents();
        let actual = match n {
            Some(k) => {
                if k > total {
                    return None;
                }
                k
            },
            None => total,
        };
        if in_len == 0 {
            match self.io_buffer.as_mut() {
                Some(io) => {
                    bytes_mut_advance(io, actual);
                    assert(c =~= old(self).io_seq());
                    assert(self.contents() =~= c.skip(actual as int));
                    return Some(actual);
                },
                None => {
                    return None;
                },
            }
        }
        let mut in_buf = self.in_buffer.take().unwrap();
        if actual <= in_len {
            bytes_mut_advance(&mut in_buf, actual);
            if bytes_mut_len(&in_buf) > 0 {
                self.in_buffer = Some(in_buf);
            }
            assert(self.contents() =~= c.skip(actual as int));
            return Some(actual);
        }
        let discard_from_io = actual - in_len;
        let io = self.io_buffer.as_mut().unwrap();
        bytes_mut_advance(io, discard_from_io);
        assert(self.contents() =~= c.skip(actual as int));
        Some(actual)
    }

    /// Takes the next `n` bytes (all bytes when `n` is `None`) as up to two
    /// buffers, held-back bytes first, releasing the held-back buffer once
    /// emptied. `None`, with nothing taken, when `n` is zero or more than is
    /// available.
    pub fn next_vectored(&mut self, n: Option<usize>) -> (r: Option<BufferChunks>)
        requires
            old(self).wf(),
        ensures
            final(self).wf(),
            final(self).io_buffer is Some == old(self).io_buffer is Some,
            match r {
                None => {
                    &&& n matches Some(k) && (k == 0 || k > old(self).contents().len())
                    &&& *final(self) == *old(self)
                },
                Some(v) => {
                    let k = requested_len(n, old(self).contents().len());
                    &&& !(n matches Some(k) && (k == 0 || k > old(self).contents().len()))
                    &&& chunks_view(v).flatten() == old(self).contents().take(k as int)
                    &&& final(self).contents() == old(self).contents().skip(k as int)
                    &&& final(self).in_seq() == in_after_taking(old(self).in_seq(), k as nat)
                    &&& final(self).io_seq() == io_after_taking(old(self).in_seq(), old(self).io_seq(), k as nat)
                    &&& (final(self).in_buffer is Some <==> (old(self).in_buffer is Some
                        && k < old(self).in_seq().len()))
                },
            },
    {
        let in_len = self.in_buf_len();
        let io_len = self.io_buf_len();
        let total = in_len + io_len;
        let ghost c = self.contents();
        let actual = match n {
            Some(k) => {
                if k > total || k == 0 {
                    return None;
                }
                k
            },
            None => total,
        };
        let mut remaining = actual;
        let mut result = chunks_new();
        if self.in_buffer.is_some() {
            let mut in_buf = self.in_buffer.take().unwrap();
            let len = if remaining < in_len {
                remaining
            } else {
                in_len
            };
            if len > 0 {
                let data = bytes_mut_split_to(&mut in_buf, len);
                chunks_push(&mut result, data);
                remaining = remaining - len;
            }
            if bytes_mut_len(&in_buf) > 0 {
                self.in_buffer = Some(in_buf);
            }
        }
        assert(self.contents() =~= c.skip((actual - remaining) as int));
        if remaining > 0 {
            if let Some(io) = self.io_buffer.as_mut() {
                let data = bytes_mut_split_to(io, remaining);
                chunks_push(&mut result, data);
            }
        }
        proof {
            lemma_flatten_short(chunks_view(result));
        }
        assert(chunks_view(result).flatten() =~= c.take(actual as int));
        assert(self.contents() =~= c.skip(actual as int));
        Some(result)
    }

    /// Keeps whatever the handler left of the current read for later: it goes
    /// behind the held-back bytes, and the current-read buffer is released.
    pub fn retain_unread(&mut self)
        requires
            old(self).wf(),
        ensures
            final(self).wf(),
            final(self).io_buffer is None,
            final(self).contents() == old(self).contents(),
    {
        let ghost c = self.contents();
        if let Some(io) = self.io_buffer.take() {
            if bytes_mut_len(&io) > 0 {
                match self.in_buffer.take() {
                    Some(mut in_buf) => {
                        bytes_mut_extend_from_slice(&mut in_buf, bytes_mut_as_slice(&io));
                        self.in_buffer = Some(in_buf);
                    },
                    None => {
                        self.in_buffer = Some(io);
                    },
                }
            }
        }
        assert(self.contents() =~= c);
    }

    /// Moves up to `buf.len()` bytes into the front of `buf`, held-back bytes
    /// first, and returns how many were moved; the held-back buffer is released
    /// once emptied.
    pub fn read_into(&mut self, buf: &mut [u8]) -> (k: usize)
        requires
            old(self).wf(),
        ensures
            final(self).wf(),
            final(self).io_buffer is Some == old(self).io_buffer is Some,
            final(self).in_buffer is Some <==> (old(self).in_buffer is Some && old(self).in_seq().len()
                > old(buf)@.len()),
            k == (if old(buf)@.len() < old(self).contents().len() {
                old(buf)@.len()
            } else {
                old(self).contents().len()
            }),
            final(buf)@.len() == old(buf)@.len(),
            final(buf)@.take(k as int) == old(self).contents().take(k as int),
            final(buf)@.skip(k as int) == old(buf)@.skip(k as int),
            final(self).contents() == old(self).contents().skip(k as int),
            final(self).in_seq() == in_after_taking(old(self).in_seq(), k as nat),
            final(self).io_seq() == io_after_taking(old(self).in_seq(), old(self).io_seq(), k as nat),
    {
        let ghost c = self.contents();
        let ghost b0 = buf@;
        let blen = buf.len();
        let mut total: usize = 0;
        if self.in_buffer.is_some() {
            let mut in_buf = self.in_buffer.take().unwrap();
            let in_len = bytes_mut_len(&in_buf);
            let len = if blen < in_len {
                blen
            } else {
                in_len
            };
            copy_into(buf, 0, bytes_mut_as_slice(&in_buf), len);
            bytes_mut_advance(&mut in_buf, len);
            total = len;
            if bytes_mut_len(&in_buf) > 0 {
                self.in_buffer = Some(in_buf);
            }
        }
        assert(c.take(total as int) =~= buf@.take(total as int));
        assert(self.contents() =~= c.skip(total as int));
        if total == blen {
            assert(buf@.skip(total as int) =~= b0.skip(total as int));
            return total;
        }
        let ghost mid = buf@;
        match self.io_buffer.as_mut() {
            Some(io) => {
                let remaining = blen - total;
                let io_len = bytes_mut_len(io);
                let len = if remaining < io_len {
                    remaining
                } else {
                    io_len
                };
                copy_into(buf, total, bytes_mut_as_slice(io), len);
                bytes_mut_advance(io, len);
                assert(buf@.take(total as int) =~= mid.take(total as int));
                total = total + len;
            },
            None => {},
        }
        assert(buf@.take(total as int) =~= c.take(total as int));
        assert(buf@.skip(total as int) =~= b0.skip(total as int));
        assert(self.contents() =~= c.skip(total as int));
        total
    }
}

/// `data` without its first `n` bytes (empty when it holds no more than `n`).
pub open spec fn drop_front(data: Seq<u8>, n: nat) -> Seq<u8> {
    data.skip(if n < data.len() { n as int } else { data.len() as int })
}

/// The bytes of each chunk of a list of chunks.
pub open spec fn chunk_views(q: Seq<Bytes>) -> Seq<Seq<u8>> {
    q.map_values(|b: Bytes| bytes_view(b))
}

/// Appending one sequence to a list of sequences appends it to their concatenation.
pub proof fn lemma_flatten_push(s: Seq<Seq<u8>>, x: Seq<u8>)
    ensures
        s.push(x).flatten() == s.flatten() + x,
{
    vstd::seq_lib::lemma_flatten_concat(s, seq![x]);
    lemma_flatten_short(seq![x]);
    assert(s.push(x) =~= s + seq![x]);
}

/// Dropping `n` bytes from `f + x` drops them from `f` first.
pub proof fn lemma_drop_front_append(f: Seq<u8>, x: Seq<u8>, n: nat)
    ensures
        drop_front(f + x, n) == (if n <= f.len() {
            drop_front(f, n) + x
        } else {
            drop_front(x, (n - f.len()) as nat)
        }),
{
    if n <= f.len() {
        assert(drop_front(f + x, n) =~= drop_front(f, n) + x);
    } else {
        assert(drop_front(f + x, n) =~= drop_front(x, (n - f.len()) as nat));
    }
}

/// Dropping `c` and then `k` more bytes drops `c + k` bytes.
pub proof fn lemma_drop_front_more(p: Seq<u8>, c: nat, k: nat)
    requires
        k <= drop_front(p, c).len(),
    ensures
        drop_front(p, c + k) == drop_front(p, c).skip(k as int),
{
    assert(drop_front(p, c + k) =~= drop_front(p, c).skip(k as int));
}

/// What a write to the socket reported.
#[derive(Debug, Clone, Copy, PartialEq, Eq, Structural)]
pub enum WriteOutcome {
    /// This many bytes were written.
    Wrote(usize),
    /// The socket cannot take data now.
    WouldBlock,
    /// The write was interrupted before it wrote anything.
    Interrupted,
    /// Any other error.
    Failed,
}

/// What a flush does after one write of queued data.
#[derive(Debug, Clone, Copy, PartialEq, Eq, Structural)]
pub enum FlushStep {
    /// Write again while data is queued.
    Continue,
    /// The socket took nothing: the peer is gone.
    WriteZero,
    /// The socket cannot take data now.
    WouldBlock,
    /// The write failed.
    Failed,
}

/// How a write of some chunks starts.
#[derive(Debug, Clone, Copy, PartialEq, Eq, Structural)]
pub enum WriteStart {
    /// Nothing is written to the socket now; this many bytes were accepted.
    Done(usize),
    /// Nothing is queued: write the chunks to the socket directly.
    WriteNow,
}

/// Outbound chunks that the socket has not taken yet, oldest first.
pub struct OutBuffer {
    pub queue: Option<VecDeque<Bytes>>,
}

impl OutBuffer {
    /// The bytes of each queued chunk.
    pub open spec fn chunks(&self) -> Seq<Seq<u8>> {
        match self.queue {
            Some(q) => chunk_views(q@),
            None => Seq::<Seq<u8>>::empty(),
        }
    }

    /// All queued bytes, oldest first.
    pub open spec fn pending(&self) -> Seq<u8> {
        self.chunks().flatten()
    }

    /// No queue.
    pub fn new() -> (r: Self)
        ensures
            r.queue is None,
            r.chunks() == Seq::<Seq<u8>>::empty(),
    {
        OutBuffer { queue: None }
    }

    /// Whether no chunk is queued.
    pub fn is_empty(&self) -> (r: bool)
        ensures
            r == (self.chunks().len() == 0),
    {
        match &self.queue {
            Some(q) => q.len() == 0,
            None => true,
        }
    }

    /// Queues one chunk behind the others.
    pub fn push(&mut self, b: Bytes)
        ensures
            final(self).queue is Some,
            final(self).chunks() == old(self).chunks().push(bytes_view(b)),
    {
        let mut q = match self.queue.take() {
            Some(q) => q,
            None => VecDeque::new(),
        };
        let ghost q0 = q@;
        q.push_back(b);
        assert(chunk_views(q@) =~= chunk_views(q0).push(bytes_view(b)));
        self.queue = Some(q);
    }

    /// Queues (handles on) all of `bufs`, in order.
    pub fn push_all(&mut self, bufs: &[Bytes])
        ensures
            final(self).queue is Some,
            final(self).chunks() == old(self).chunks() + chunk_views(bufs@),
    {
        let mut i: usize = 0;
        let ghost c0 = self.chunks();
        if self.queue.is_none() {
            self.queue = Some(VecDeque::new());
            assert(self.chunks() =~= c0);
        }
        while i < bufs.len()
            invariant
                i <= bufs@.len(),
                self.queue is Some,
                self.chunks() == c0 + chunk_views(bufs@.take(i as int)),
            decreases bufs@.len() - i,
        {
            let b = bytes_clone(&bufs[i]);
            self.push(b);
            assert(chunk_views(bufs@.take(i + 1)) =~= chunk_views(bufs@.take(i as int)).push(
                bytes_view(bufs@[i as int]),
            ));
            i = i + 1;
        }
        assert(bufs@.take(bufs@.len() as int) =~= bufs@);
    }

    /// Queues what is left of `bufs` after the first `written` of their bytes.
    pub fn queue_unwritten(&mut self, bufs: &[Bytes], written: usize)
        ensures
            final(self).pending() == old(self).pending() + drop_front(
                chunk_views(bufs@).flatten(),
                written as nat,
            ),
    {
        let ghost p0 = self.pending();
        let ghost vb = chunk_views(bufs@);
        let mut w = written;
        let mut i: usize = 0;
        assert(vb.take(0).flatten() =~= Seq::<u8>::empty());
        while i < bufs.len()
            invariant
                i <= bufs@.len(),
                vb == chunk_views(bufs@),
                ({
                    let f = vb.take(i as int).flatten();
                    &&& self.pending() == p0 + drop_front(f, written as nat)
                    &&& w == (if written >= f.len() { written - f.len() } else { 0 })
                }),
            decreases bufs@.len() - i,
        {
            let ghost f = vb.take(i as int).flatten();
            proof {
                assert(vb.take(i + 1) =~= vb.take(i as int).push(vb[i as int]));
                lemma_flatten_push(vb.take(i as int), vb[i as int]);
            }
            let len = bytes_len(&bufs[i]);
            proof {
                lemma_drop_front_append(f, vb[i as int], written as nat);
            }
            let ghost cb = self.chunks();
            if w >= len {
                w = w - len;
            } else if w > 0 {
                let rest = bytes_slice_from(&bufs[i], w);
                self.push(rest);
                proof {
                    lemma_flatten_push(cb, bytes_view(rest));
                }
                w = 0;
            } else {
                let c = bytes_clone(&bufs[i]);
                self.push(c);
                proof {
                    lemma_flatten_push(cb, bytes_view(c));
                    assert(vb[i as int].skip(0) =~= vb[i as int]);
                }
            }
            i = i + 1;
        }
        assert(vb.take(bufs@.len() as int) =~= vb);
    }

    /// Drops the first `written` queued bytes (all of them when fewer are queued).
    pub fn consume(&mut self, written: usize)
        ensures
            final(self).pending() == drop_front(old(self).pending(), written as nat),
    {
        let ghost p0 = self.pending();
        let mut q = match self.queue.take() {
            Some(q) => q,
            None => {
                assert(drop_front(p0, written as nat) =~= p0);
                return;
            },
        };
        let mut w = written;
        while w > 0
            invariant
                w <= written,
                chunk_views(q@).flatten() == drop_front(p0, (written - w) as nat),
            ensures
                chunk_views(q@).flatten() == drop_front(p0, written as nat),
            decreases q@.len() + w,
        {
            let ghost cq = chunk_views(q@);
            let ghost consumed = (written - w) as nat;
            match q.pop_front() {
                Some(front) => {
                    let len = bytes_len(&front);
                    proof {
                        assert(cq.first() == bytes_view(front));
                        assert(chunk_views(q@) =~= cq.drop_first());
                        assert(cq.flatten() == cq.first() + cq.drop_first().flatten());
                    }
                    if len <= w {
                        proof {
                            lemma_drop_front_more(p0, consumed, len as nat);
                            assert(cq.drop_first().flatten() =~= cq.flatten().skip(len as int));
                        }
                        w = w - len;
                    } else {
                        let mut f = front;
                        bytes_advance(&mut f, w);
                        q.push_front(f);
                        proof {
                            lemma_drop_front_more(p0, consumed, w as nat);
                            let cn = chunk_views(q@);
                            assert(cn =~= seq![bytes_view(f)] + cq.drop_first());
                            assert(cn.drop_first() =~= cq.drop_first());
                            assert(cn.flatten() == cn.first() + cn.drop_first().flatten());
                            assert(cn.flatten() =~= cq.flatten().skip(w as int));
                        }
                        w = 0;
                    }
                },
                None => {
                    proof {
                        assert(cq =~= Seq::<Seq<u8>>::empty());
                        assert(drop_front(p0, consumed).len() == 0);
                        assert(drop_front(p0, written as nat) =~= Seq::<u8>::empty());
                    }
                    break;
                },
            }
        }
        self.queue = Some(q);
    }

    /// Starts a write of `bufs`: no bytes is a write of nothing; while data is
    /// queued the chunks are queued behind it (so that bytes leave in order),
    /// and otherwise they are to be written to the socket directly.
    pub fn start_write(&mut self, bufs: &[Bytes]) -> (r: WriteStart)
        requires
            chunk_views(bufs@).flatten().len() <= usize::MAX,
        ensures
            ({
                let total = chunk_views(bufs@).flatten().len();
                if total == 0 {
                    r == WriteStart::Done(0) && *final(self) == *old(self)
                } else if old(self).chunks().len() > 0 {
                    &&& r == WriteStart::Done(total as usize)
                    &&& final(self).chunks() == old(self).chunks() + chunk_views(bufs@)
                } else {
                    r == WriteStart::WriteNow && *final(self) == *old(self)
                }
            }),
    {
        let total = total_len(bufs);
        if total == 0 {
            return WriteStart::Done(0);
        }
        if !self.is_empty() {
            self.push_all(bufs);
            return WriteStart::Done(total);
        }
        WriteStart::WriteNow
    }

    /// Records a direct write of `bufs` to the socket (made while nothing was
    /// queued): what the socket did not take is queued. Returns the number of
    /// bytes accepted from the caller, or `None` when the write failed.
    pub fn record_write(&mut self, bufs: &[Bytes], outcome: WriteOutcome) -> (r: Option<usize>)
        requires
            chunk_views(bufs@).flatten().len() <= usize::MAX,
        ensures
            match outcome {
                WriteOutcome::Wrote(n) => {
                    &&& r == Some(chunk_views(bufs@).flatten().len() as usize)
                    &&& final(self).pending() == old(self).pending() + drop_front(
                        chunk_views(bufs@).flatten(),
                        n as nat,
                    )
                },
                WriteOutcome::WouldBlock | WriteOutcome::Interrupted => {
                    &&& r == Some(chunk_views(bufs@).flatten().len() as usize)
                    &&& final(self).chunks() == old(self).chunks() + chunk_views(bufs@)
                },
                WriteOutcome::Failed => {
                    &&& r is None
                    &&& *final(self) == *old(self)
                },
            },
    {
        let total = total_len(bufs);
        match outcome {
            WriteOutcome::Wrote(n) => {
                self.queue_unwritten(bufs, n);
                Some(total)
            },
            WriteOutcome::WouldBlock | WriteOutcome::Interrupted => {
                self.push_all(bufs);
                Some(total)
            },
            WriteOutcome::Failed => None,
        }
    }

    /// Records one write of queued data during a flush: written bytes leave
    /// the queue; says whether to go on.
    pub fn record_flush(&mut self, outcome: WriteOutcome) -> (step: FlushStep)
        ensures
            match outcome {
                WriteOutcome::Wrote(n) => if n == 0 {
                    step == FlushStep::WriteZero && *final(self) == *old(self)
                } else {
                    step == FlushStep::Continue && final(self).pending() == drop_front(
                        old(self).pending(),
                        n as nat,
                    )
                },
                WriteOutcome::Interrupted => step == FlushStep::Continue && *final(self) == *old(self),
                WriteOutcome::WouldBlock => step == FlushStep::WouldBlock && *final(self) == *old(self),
                WriteOutcome::Failed => step == FlushStep::Failed && *final(self) == *old(self),
            },
    {
        match outcome {
            WriteOutcome::Wrote(n) => {
                if n == 0 {
                    FlushStep::WriteZero
                } else {
                    self.consume(n);
                    FlushStep::Continue
                }
            },
            WriteOutcome::Interrupted => FlushStep::Continue,
            WriteOutcome::WouldBlock => FlushStep::WouldBlock,
            WriteOutcome::Failed => FlushStep::Failed,
        }
    }
}

/// The number of bytes in all of `bufs`.
pub fn total_len(bufs: &[Bytes]) -> (n: usize)
    requires
        chunk_views(bufs@).flatten().len() <= usize::MAX,
    ensures
        n == chunk_views(bufs@).flatten().len(),
{
    let ghost vb = chunk_views(bufs@);
    let mut n: usize = 0;
    let mut i: usize = 0;
    assert(vb.take(0).flatten() =~= Seq::<u8>::empty());
    while i < bufs.len()
        invariant
            i <= bufs@.len(),
            vb == chunk_views(bufs@),
            vb.flatten().len() <= usize::MAX,
            n == vb.take(i as int).flatten().len(),
        decreases bufs@.len() - i,
    {
        proof {
            assert(vb.take(i + 1) =~= vb.take(i as int).push(vb[i as int]));
            lemma_flatten_push(vb.take(i as int), vb[i as int]);
            lemma_flatten_prefix_len(vb, i + 1);
        }
        n = n + bytes_len(&bufs[i]);
        i = i + 1;
    }
    assert(vb.take(bufs@.len() as int) =~= vb);
    n
}

/// The concatenation of a prefix of a list is no longer than that of the whole list.
pub proof fn lemma_flatten_prefix_len(s: Seq<Seq<u8>>, i: int)
    requires
        0 <= i <= s.len(),
    ensures
        s.take(i).flatten().len() <= s.flatten().len(),
{
    vstd::seq_lib::lemma_flatten_concat(s.take(i), s.skip(i));
    assert(s.take(i) + s.skip(i) =~= s);
}

/// Taking the first `k` inbound bytes and then the rest hands out every byte
/// exactly once, in arrival order.
pub proof fn law_inbound_bytes_taken_once(contents: Seq<u8>, k: nat)
    requires
        k <= contents.len(),
    ensures
        contents.take(k as int) + contents.skip(k as int) == contents,
{
    assert(contents.take(k as int) + contents.skip(k as int) =~= contents);
}

/// Queued outbound bytes leave in the order they were queued: once as many
/// bytes as were queued first have been written, exactly the later ones remain.
pub proof fn law_outbound_first_in_first_out(first: Seq<u8>, later: Seq<u8>)
    ensures
        drop_front(first + later, first.len()) == later,
{
    lemma_drop_front_append(first, later, first.len());
    assert(first.skip(first.len() as int) =~= Seq::<u8>::empty());
    assert(Seq::<u8>::empty() + later =~= later);
}

/// Two writes that take `a` and then `b` queued bytes take `a + b` of them.
pub proof fn law_outbound_writes_add_up(pending: Seq<u8>, a: nat, b: nat)
    ensures
        drop_front(drop_front(pending, a), b) == drop_front(pending, a + b),
{
    assert(drop_front(drop_front(pending, a), b) =~= drop_front(pending, a + b));
}

} // verus!
