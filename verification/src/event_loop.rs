//! Decisions an event loop takes on readiness events and commands.

use crate::connection::FlushStep;
use crate::gfd::Gfd;
use crate::handler::Action;
use vstd::prelude::*;

verus! {

/// What the poller reported for a connection.
#[derive(Debug, Clone, Copy, PartialEq, Eq, Structural)]
pub struct IoReadiness {
    pub error: bool,
    pub read_closed: bool,
    pub readable: bool,
    pub writable: bool,
}

/// What the event loop does for a connection on a readiness event, in this
/// order: close it, or flush pending writes and/or read.
#[derive(Debug, Clone, Copy, PartialEq, Eq, Structural)]
pub struct IoPlan {
    pub close: bool,
    pub write: bool,
    pub read: bool,
}

/// The plan for an event: a connection that failed or was closed by the peer,
/// with nothing left to read or write, is closed; otherwise an error or
/// writability triggers a flush and an error or readability a read.
pub fn plan_io(ev: IoReadiness) -> (p: IoPlan)
    ensures
        p.close == ((ev.error || ev.read_closed) && !ev.readable && !ev.writable),
        p.write == (!p.close && (ev.error || ev.writable)),
        p.read == (!p.close && (ev.error || ev.readable)),
{
    if (ev.error || ev.read_closed) && (!ev.readable && !ev.writable) {
        return IoPlan { close: true, write: false, read: false };
    }
    IoPlan { close: false, write: ev.error || ev.writable, read: ev.error || ev.readable }
}

/// The slot of the connection an asynchronous write for `gfd` goes to, when
/// event loop `loop_id` receives it: `None` when the write belongs to another loop.
pub fn async_write_slot(gfd: &Gfd, loop_id: u8) -> (r: Option<usize>)
    ensures
        r == (if gfd.spec_event_loop_index() == loop_id as nat {
            Some(gfd.spec_slab_index() as usize)
        } else {
            None::<usize>
        }),
{
    let idx = gfd.event_loop_index();
    if idx != loop_id as usize {
        return None;
    }
    Some(gfd.slab_index())
}

/// How handling a connection's readiness ended.
#[derive(Debug, Clone, Copy, PartialEq, Eq, Structural)]
pub enum IoStatus {
    /// Nothing more to do until the next event.
    Completed,
    /// The batch limit was reached; the rest is handled in a later turn.
    Yield,
    /// The connection is to be closed (gracefully or not).
    Closed(bool),
    /// The engine is to shut down.
    Shutdown,
}

/// What a read from a connection's socket reported.
#[derive(Debug, Clone, Copy, PartialEq, Eq, Structural)]
pub enum ReadOutcome {
    /// This many bytes (at least one) arrived.
    Data(usize),
    /// The peer closed its side.
    Eof,
    /// Nothing to read now.
    WouldBlock,
    /// Any other error.
    Failed,
}

/// Whether a read or write batch must stop before touching the socket again.
pub fn batch_exhausted(done: usize, max_batch: usize) -> (r: bool)
    ensures
        r == (done >= max_batch),
{
    done >= max_batch
}

/// The bytes handled so far in a batch after one more socket operation that
/// handled `n` bytes (saturating at the largest `usize`).
pub fn batch_progress(done: usize, n: usize) -> (r: usize)
    ensures
        r == (if done + n <= usize::MAX {
            done + n
        } else {
            usize::MAX as int
        }),
{
    done.saturating_add(n)
}

/// How a read ends, if it does: end of stream closes gracefully, errors close
/// at once, an empty socket completes the turn, and data continues the loop
/// unless the handler asks to close or to shut down.
pub fn read_status(outcome: ReadOutcome, verdict: Action) -> (r: Option<IoStatus>)
    ensures
        r == (match outcome {
            ReadOutcome::Eof => Some(IoStatus::Closed(true)),
            ReadOutcome::Failed => Some(IoStatus::Closed(false)),
            ReadOutcome::WouldBlock => Some(IoStatus::Completed),
            ReadOutcome::Data(_) => match verdict {
                Action::Keep => None::<IoStatus>,
                Action::Close => Some(IoStatus::Closed(true)),
                Action::Shutdown => Some(IoStatus::Shutdown),
            },
        }),
{
    match outcome {
        ReadOutcome::Eof => Some(IoStatus::Closed(true)),
        ReadOutcome::Failed => Some(IoStatus::Closed(false)),
        ReadOutcome::WouldBlock => Some(IoStatus::Completed),
        ReadOutcome::Data(_) => match verdict {
            Action::Keep => None,
            Action::Close => Some(IoStatus::Closed(true)),
            Action::Shutdown => Some(IoStatus::Shutdown),
        },
    }
}

/// How a write of queued data ends, if it does: a write that takes nothing
/// or fails closes the connection at once, a full socket completes the turn,
/// and anything else goes on.
pub fn write_status(step: FlushStep) -> (r: Option<IoStatus>)
    ensures
        r == (match step {
            FlushStep::Continue => None::<IoStatus>,
            FlushStep::WriteZero => Some(IoStatus::Closed(false)),
            FlushStep::WouldBlock => Some(IoStatus::Completed),
            FlushStep::Failed => Some(IoStatus::Closed(false)),
        }),
{
    match step {
        FlushStep::Continue => None,
        FlushStep::WriteZero => Some(IoStatus::Closed(false)),
        FlushStep::WouldBlock => Some(IoStatus::Completed),
        FlushStep::Failed => Some(IoStatus::Closed(false)),
    }
}

/// The most commands an event loop handles in one turn.
pub const MAX_ASYNC_TASK_ONE_TIME: usize = 256;

/// What polling a command queue reported.
#[derive(Debug, Clone, Copy, PartialEq, Eq, Structural)]
pub enum Polled {
    /// A command was taken.
    Command,
    /// The queue is empty.
    Empty,
    /// Every sender is gone.
    Disconnected,
}

/// Where the next command of a turn comes from.
#[derive(Debug, Clone, Copy, PartialEq, Eq, Structural)]
pub enum CommandSource {
    /// The command just taken from the urgent queue.
    Urgent,
    /// The common queue, polled next.
    Common,
    /// No further command this turn.
    Stop,
}

/// Where the next command comes from, once the urgent queue was polled:
/// urgent commands go first, the common queue is polled only when the urgent
/// one is empty, and a disconnected urgent queue ends the turn.
pub fn after_urgent_poll(urgent: Polled) -> (r: CommandSource)
    ensures
        r == (match urgent {
            Polled::Command => CommandSource::Urgent,
            Polled::Empty => CommandSource::Common,
            Polled::Disconnected => CommandSource::Stop,
        }),
{
    match urgent {
        Polled::Command => CommandSource::Urgent,
        Polled::Empty => CommandSource::Common,
        Polled::Disconnected => CommandSource::Stop,
    }
}

/// Whether an asynchronous write for `gfd` goes to the connection found in its
/// slot: only when that connection is the one it was addressed to (a slot that
/// was reused holds another connection, and an empty slot none).
pub fn async_write_applies(gfd: &Gfd, current: Option<&Gfd>) -> (r: bool)
    ensures
        r == (match current {
            Some(c) => *c == *gfd,
            None => false,
        }),
{
    match current {
        Some(c) => *c == *gfd,
        None => false,
    }
}

/// What registering a newly accepted connection comes to once the handler saw it.
#[derive(Debug, Clone, Copy, PartialEq, Eq, Structural)]
pub enum OpenStatus {
    /// The connection is kept and counted.
    Registered,
    /// The connection is closed gracefully.
    Closed,
    /// The engine is to shut down.
    Shutdown,
}

/// The handler's answer to a new connection: carrying on registers it,
/// closing closes it, and shutting down stops the engine.
pub fn open_status(answer: Action) -> (r: OpenStatus)
    ensures
        r == (match answer {
            Action::Keep => OpenStatus::Registered,
            Action::Close => OpenStatus::Closed,
            Action::Shutdown => OpenStatus::Shutdown,
        }),
{
    match answer {
        Action::Keep => OpenStatus::Registered,
        Action::Close => OpenStatus::Closed,
        Action::Shutdown => OpenStatus::Shutdown,
    }
}

} // verus!
