//! One-slot process supervisor.
//!
//! The supervisor owns at most one handle to the supervised child process.
//! The handle itself is an opaque token chosen by the caller (the layer that
//! actually spawns the process); the supervisor only tracks ownership of the
//! slot. Taking the handle out of the slot is how a termination request is
//! issued: the caller must signal the process whose token it receives.

use vstd::prelude::*;

verus! {

pub struct ProcessManager {
    child: Option<u64>,
}

/// The slot after `set_child` stored a handle.
pub closed spec fn set_child_spec(m: ProcessManager, handle: u64) -> ProcessManager {
    ProcessManager { child: Some(handle) }
}

/// The slot and the surrendered handle after `kill_child`.
pub closed spec fn kill_child_spec(m: ProcessManager) -> (ProcessManager, Option<u64>) {
    (ProcessManager { child: None }, m.slot())
}

impl ProcessManager {
    /// The current content of the process-handle slot.
    pub closed spec fn slot(&self) -> Option<u64> {
        self.child
    }

    pub fn new() -> (r: ProcessManager)
        ensures
            r.slot() is None,
    {
        ProcessManager { child: None }
    }

    /// Stores a freshly spawned child's handle. A handle already in the slot
    /// is dropped without a termination request; the caller is expected to
    /// keep at most one spawn live at a time.
    pub fn set_child(&mut self, handle: u64)
        ensures
            *final(self) == set_child_spec(*old(self), handle),
            final(self).slot() == Some(handle),
    {
        self.child = Some(handle);
    }

    /// Atomically takes ownership of the current handle, clearing the slot.
    /// The returned handle, if any, is the termination request: the caller
    /// must signal that process. Never fails; on an empty slot it is a no-op.
    pub fn kill_child(&mut self) -> (r: Option<u64>)
        ensures
            (*final(self), r) == kill_child_spec(*old(self)),
            final(self).slot() is None,
            r == old(self).slot(),
    {
        let r = self.child;
        self.child = None;
        r
    }
}

/// Requesting termination on an empty slot is a no-op: nothing fails and the
/// slot stays empty.
pub proof fn lemma_kill_on_empty_slot(m: ProcessManager)
    requires
        m.slot() is None,
    ensures
        kill_child_spec(m).0.slot() is None,
        kill_child_spec(m).1 is None,
{
}

/// Storing a handle and then requesting termination leaves the slot empty and
/// surrenders exactly the stored handle, so a termination request reaches the
/// process that was just started.
pub proof fn lemma_start_then_kill(m: ProcessManager, handle: u64)
    ensures
        kill_child_spec(set_child_spec(m, handle)).0.slot() is None,
        kill_child_spec(set_child_spec(m, handle)).1 == Some(handle),
{
}

} // verus!
