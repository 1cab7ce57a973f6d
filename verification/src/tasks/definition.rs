//! What a task kind supports beyond running to completion.

use vstd::prelude::*;

verus! {

/// What a task kind supports beyond running to completion.
#[derive(Debug, Clone, Copy, PartialEq, Eq, Default, Structural)]
pub struct Capabilities {
    /// The task can be asked to stop before it finishes. Cancellation is
    /// always cooperative: the body observes the cancellation signal and
    /// unwinds.
    pub cancellable: bool,
    /// The task is safe to interrupt across a process stop, because it can be
    /// resumed or simply re-run later. An unresumable task must be allowed
    /// to finish before the gateway shuts down.
    pub resumable: bool,
}

impl Capabilities {
    /// A task that can neither be cancelled nor safely interrupted.
    pub fn none() -> (c: Capabilities)
        ensures
            !c.cancellable,
            !c.resumable,
    {
        Capabilities { cancellable: false, resumable: false }
    }
}

} // verus!
