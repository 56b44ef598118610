//! Commands sent to event loops and their urgency.

use vstd::prelude::*;

verus! {

/// How urgently a command must be handled.
#[derive(Debug, Clone, Copy, PartialEq, Eq, Structural, PartialOrd)]
pub enum Prioity {
    High,
    Low,
}

/// The kinds of commands an event loop handles.
#[derive(Debug, Clone, Copy, PartialEq, Eq, Structural)]
pub enum CommandKind {
    Noop,
    AsyncWrite,
    Register,
    Close,
    Wake,
    Read,
    Write,
    Shutdown,
}

/// The queue of an event loop a command is sent to.
#[derive(Debug, Clone, Copy, PartialEq, Eq, Structural)]
pub enum Queue {
    Urgent,
    Common,
}

/// Capacity of the urgent queue beyond which low-priority commands go to the common queue.
pub const MAX_POLL_EVENT_CAP: usize = 1024;

/// The urgency of a kind of command: writes, reads and shutdowns are urgent.
pub open spec fn spec_priority(kind: CommandKind) -> Prioity {
    match kind {
        CommandKind::AsyncWrite | CommandKind::Read | CommandKind::Write | CommandKind::Shutdown => Prioity::High,
        _ => Prioity::Low,
    }
}

impl CommandKind {
    /// The urgency of commands of this kind.
    pub fn priority(&self) -> (p: Prioity)
        ensures
            p == spec_priority(*self),
    {
        match self {
            CommandKind::Noop => Prioity::Low,
            CommandKind::AsyncWrite => Prioity::High,
            CommandKind::Wake => Prioity::Low,
            CommandKind::Register => Prioity::Low,
            CommandKind::Close => Prioity::Low,
            CommandKind::Read => Prioity::High,
            CommandKind::Write => Prioity::High,
            CommandKind::Shutdown => Prioity::High,
        }
    }
}

/// The queue a command of urgency `priority` goes to when the urgent queue
/// holds `urgent_len` commands: low-priority commands overflow into the common
/// queue once the urgent one is full; everything else is urgent.
pub fn route(priority: Prioity, urgent_len: usize) -> (q: Queue)
    ensures
        q == (if priority == Prioity::Low && urgent_len >= MAX_POLL_EVENT_CAP {
            Queue::Common
        } else {
            Queue::Urgent
        }),
{
    if priority == Prioity::Low && urgent_len >= MAX_POLL_EVENT_CAP {
        Queue::Common
    } else {
        Queue::Urgent
    }
}

} // verus!
