//! Cooperative cancellation: a flag set by an external interrupt source and
//! polled by the orchestrator at turn boundaries.  The flag is explicit,
//! injectable state; the binary wires it to process signals.

use vstd::prelude::*;

verus! {

/// The stop-request flag; its view is whether a stop is pending.
pub struct CancelFlag {
    requested: bool,
}

impl View for CancelFlag {
    type V = bool;

    closed spec fn view(&self) -> bool {
        self.requested
    }
}

impl CancelFlag {
    /// A fresh flag, with no stop pending.
    pub fn new() -> (r: CancelFlag)
        ensures
            r@ == false,
    {
        CancelFlag { requested: false }
    }

    /// Record that an external interrupt asked the conversation to stop.
    pub fn request_stop(&mut self)
        ensures
            final(self)@ == true,
    {
        self.requested = true;
    }
}

/// Clear the stop flag, after a stoppable operation completes or a stop has
/// been handled.
pub fn reset_stop_flag(flag: &mut CancelFlag)
    ensures
        final(flag)@ == false,
{
    flag.requested = false;
}

/// Has an interrupt requested a stop?
pub fn is_stop_requested(flag: &CancelFlag) -> (r: bool)
    ensures
        r == flag@,
{
    flag.requested
}

} // verus!
