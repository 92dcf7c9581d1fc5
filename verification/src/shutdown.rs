//! How an operator shuts down: asked once it winds down, asked twice it leaves.

use vstd::prelude::*;

verus! {

/// How far the shutdown of an operator has come.
#[derive(Debug, PartialEq, Eq, Clone, Copy, Structural)]
pub enum Shutdown {
    /// Nobody has asked the operator to stop.
    Running,
    /// The operator was asked to stop and winds down.
    Graceful,
    /// The operator was asked twice: it stops at once.
    Forced,
}

/// What an operator does about an interrupt.
#[derive(Debug, PartialEq, Eq, Clone, Copy, Structural)]
pub enum Halt {
    /// Ask the reconciling loop to end, and stop taking requests.
    RequestExit,
    /// Leave at once.
    Abort,
}

impl Shutdown {
    /// The shutdown after one more interrupt, and what is to be done about it: the
    /// first interrupt asks for a graceful end, any later one aborts.
    pub fn on_interrupt(self) -> (next: (Shutdown, Halt))
        ensures
            next == match self {
                Shutdown::Running => (Shutdown::Graceful, Halt::RequestExit),
                Shutdown::Graceful => (Shutdown::Forced, Halt::Abort),
                Shutdown::Forced => (Shutdown::Forced, Halt::Abort),
            },
    {
        match self {
            Shutdown::Running => (Shutdown::Graceful, Halt::RequestExit),
            Shutdown::Graceful => (Shutdown::Forced, Halt::Abort),
            Shutdown::Forced => (Shutdown::Forced, Halt::Abort),
        }
    }
}

} // verus!
