//! What an event handler answers to an event on a connection.

use vstd::prelude::*;

verus! {

/// A handler's answer: keep the connection as it is (no action), close it,
/// or shut the engine down.
#[derive(Debug, Clone, Copy, PartialEq, Eq, Structural)]
pub enum Action {
    Keep,
    Close,
    Shutdown,
}

} // verus!
