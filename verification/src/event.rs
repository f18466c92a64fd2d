//! What comes of an event, and of asking for commands.
use vstd::prelude::*;

verus! {

/// Whether a key was used up.
#[derive(Clone, Copy, PartialEq, Eq, Debug, Structural)]
pub enum EventState {
    Consumed,
    NotConsumed,
}

/// Whether the commands of what lies below are hidden.
#[derive(Clone, Copy, PartialEq, Eq, Debug, Structural)]
pub enum CommandBlocking {
    Blocking,
    PassingOn,
}

} // verus!
