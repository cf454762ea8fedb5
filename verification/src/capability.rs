//! The one thing taken from the game's resource-pack manager: the address of
//! its load function together with the instance to call it on.
use vstd::prelude::*;

verus! {

/// The load function of the resource-pack manager and the instance it
/// belongs to, both as addresses. Neither is 0.
#[derive(Clone, Copy, Debug, PartialEq, Eq, Structural)]
pub struct LoadCapability {
    pub function: u64,
    pub instance: u64,
}

/// The place where the capability is kept once it has been captured.
pub struct CaptureSlot {
    pub captured: Option<LoadCapability>,
}

impl CaptureSlot {
    /// What is kept names a function and an instance.
    pub open spec fn wf(&self) -> bool {
        self.captured matches Some(capability) ==> capability.function != 0 && capability.instance
            != 0
    }

    /// A slot that holds nothing yet.
    pub fn new() -> (slot: Self)
        ensures
            slot.captured is None,
            slot.wf(),
    {
        CaptureSlot { captured: None }
    }

    /// Keeps the capability, once: the first capture of a function and an
    /// instance that are both there is kept for good, and every other call
    /// changes nothing. Tells whether this call was the one.
    pub fn capture(&mut self, function: u64, instance: u64) -> (kept: bool)
        ensures
            kept == (old(self).captured is None && function != 0 && instance != 0),
            final(self).captured == if kept {
                Some(LoadCapability { function, instance })
            } else {
                old(self).captured
            },
            old(self).wf() ==> final(self).wf(),
    {
        if self.captured.is_none() && function != 0 && instance != 0 {
            self.captured = Some(LoadCapability { function, instance });
            true
        } else {
            false
        }
    }

    /// The capability, where it has been captured.
    pub fn get(&self) -> (capability: Option<LoadCapability>)
        ensures
            capability == self.captured,
    {
        self.captured
    }
}

} // verus!
