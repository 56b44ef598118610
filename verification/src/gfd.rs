//! Global connection descriptors: a file descriptor together with a sequence
//! number and the position of the connection inside its event loop.

use vstd::prelude::*;

verus! {

/// Largest slab index (exclusive) that fits into the low 24 bits of the packed index.
pub const SLAB_INDEX_LIMIT: usize = 0x100_0000;

/// Source of sequence numbers for [`Gfd`]s: every call of `next` hands out the
/// current value and advances it by one (wrapping around at `u32::MAX`).
pub struct GfdSequence {
    next: u32,
}

impl GfdSequence {
    /// The value the next call of `next` returns.
    pub closed spec fn peek(&self) -> u32 {
        self.next
    }

    /// A fresh generator, which starts at zero.
    pub fn new() -> (s: Self)
        ensures
            s.peek() == 0,
    {
        GfdSequence { next: 0 }
    }

    /// Hands out the current sequence number and advances the generator.
    pub fn next(&mut self) -> (seq: u32)
        ensures
            seq == old(self).peek(),
            final(self).peek() == (if old(self).peek() == u32::MAX { 0 } else { (old(self).peek() + 1) as u32 }),
    {
        let seq = self.next;
        self.next = self.next.wrapping_add(1);
        seq
    }
}

/// The decimal digit for `d < 10`.
pub open spec fn digit(d: nat) -> char {
    seq!['0', '1', '2', '3', '4', '5', '6', '7', '8', '9'][d as int]
}

/// `n` in decimal, without leading zeros.
pub open spec fn decimal(n: nat) -> Seq<char>
    decreases n,
{
    if n < 10 {
        seq![digit(n)]
    } else {
        decimal(n / 10).push(digit(n % 10))
    }
}

/// `n` in decimal, with a minus sign in front when negative.
pub open spec fn signed_decimal(n: int) -> Seq<char> {
    if n < 0 {
        seq!['-'] + decimal((-n) as nat)
    } else {
        decimal(n as nat)
    }
}

/// The text that describes a descriptor with these parts.
pub open spec fn gfd_text(fd: i64, seq: u32, loop_index: usize, slab_index: usize) -> Seq<char> {
    "Gfd { fd: "@ + signed_decimal(fd as int) + ", seq: "@ + decimal(seq as nat) + ", loop: "@ + decimal(
        loop_index as nat,
    ) + ", index: "@ + decimal(slab_index as nat) + " }"@
}

/// `format!` of the four numbers into the description text; std writes
/// integers through `Display` in decimal, with a minus sign when negative.
#[verifier::external_body]
fn format_gfd(fd: i64, seq: u32, loop_index: usize, slab_index: usize) -> (s: String)
    ensures
        s@ == gfd_text(fd, seq, loop_index, slab_index),
{
    format!("Gfd {{ fd: {}, seq: {}, loop: {}, index: {} }}", fd, seq, loop_index, slab_index)
}

/// A connection identifier: file descriptor, sequence number, event-loop index
/// (8 bits) and slab index (24 bits) packed into one 32-bit word.
#[derive(Clone, Copy, PartialEq, Eq, Structural, Hash)]
pub struct Gfd {
    seq: u32,
    index_info: u32,
    fd: i64,
}

/// The packed form of an event-loop index and a slab index.
pub open spec fn pack_index(loop_id: u8, token: usize) -> u32 {
    ((loop_id as u32) << 24u32) | ((token as u32) & 0xFF_FFFFu32)
}

impl Gfd {
    pub closed spec fn spec_fd(&self) -> i64 {
        self.fd
    }

    pub closed spec fn spec_sequence(&self) -> u32 {
        self.seq
    }

    pub closed spec fn spec_event_loop_index(&self) -> nat {
        (self.index_info >> 24u32) as nat
    }

    pub closed spec fn spec_slab_index(&self) -> nat {
        (self.index_info & 0xFF_FFFFu32) as nat
    }

    /// Builds the descriptor of connection `token` in event loop `loop_id`,
    /// taking the next number of `seqs` as its sequence number.
    pub fn new(fd: i64, loop_id: u8, token: usize, seqs: &mut GfdSequence) -> (g: Self)
        requires
            token < SLAB_INDEX_LIMIT,
        ensures
            g.spec_fd() == fd,
            g.spec_sequence() == old(seqs).peek(),
            g.spec_event_loop_index() == loop_id as nat,
            g.spec_slab_index() == token as nat,
            final(seqs).peek() == (if old(seqs).peek() == u32::MAX { 0 } else { (old(seqs).peek() + 1) as u32 }),
    {
        let seq = seqs.next();
        let t: u32 = token as u32;
        let l: u32 = loop_id as u32;
        let index_info: u32 = (l << 24u32) | (t & 0xFF_FFFFu32);
        proof {
            assert(t == token);
            assert(l < 256);
            assert((((l << 24u32) | (t & 0xFF_FFFFu32)) >> 24u32) == l) by (bit_vector)
                requires l < 256u32;
            assert((((l << 24u32) | (t & 0xFF_FFFFu32)) & 0xFF_FFFFu32) == t) by (bit_vector)
                requires t < 0x100_0000u32;
        }
        Gfd { fd, seq, index_info }
    }

    /// The file descriptor.
    pub fn fd(&self) -> (r: i64)
        ensures
            r == self.spec_fd(),
    {
        self.fd
    }

    /// The sequence number.
    pub fn sequence(&self) -> (r: u32)
        ensures
            r == self.spec_sequence(),
    {
        self.seq
    }

    /// The index of the event loop that owns the connection.
    pub fn event_loop_index(&self) -> (r: usize)
        ensures
            r as nat == self.spec_event_loop_index(),
            r < 256,
    {
        let i = self.index_info;
        assert((i >> 24u32) < 256u32) by (bit_vector);
        (i >> 24u32) as usize
    }

    /// The slot of the connection in its event loop's connection table.
    pub fn slab_index(&self) -> (r: usize)
        ensures
            r as nat == self.spec_slab_index(),
            r < SLAB_INDEX_LIMIT,
    {
        let i = self.index_info;
        assert((i & 0xFF_FFFFu32) < 0x100_0000u32) by (bit_vector);
        (i & 0xFF_FFFFu32) as usize
    }

    /// A description of the descriptor: file descriptor, sequence number,
    /// event-loop index and slab index.
    pub fn describe(&self) -> (s: String)
        ensures
            s@ == gfd_text(self.spec_fd(), self.spec_sequence(), self.spec_event_loop_index() as usize,
                self.spec_slab_index() as usize),
    {
        format_gfd(self.fd, self.seq, self.event_loop_index(), self.slab_index())
    }

    /// Whether the descriptor names an open file and was not the first one handed out.
    pub fn validate(&self) -> (r: bool)
        ensures
            r == (self.spec_fd() >= 0 && self.spec_sequence() > 0),
    {
        self.fd >= 0 && self.seq > 0
    }
}

/// Descriptors built one after the other from the same generator carry
/// consecutive sequence numbers (wrapping around after `u32::MAX`).
pub proof fn law_consecutive_sequences(first: Gfd, second: Gfd, before: GfdSequence, between: GfdSequence)
    requires
        first.spec_sequence() == before.peek(),
        between.peek() == (if before.peek() == u32::MAX { 0 } else { (before.peek() + 1) as u32 }),
        second.spec_sequence() == between.peek(),
    ensures
        first.spec_sequence() < u32::MAX ==> second.spec_sequence() == first.spec_sequence() + 1,
        first.spec_sequence() == u32::MAX ==> second.spec_sequence() == 0,
        second.spec_sequence() != first.spec_sequence(),
{
}

} // verus!
