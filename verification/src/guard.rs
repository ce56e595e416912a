//! The per-thread reentrancy guard.

use vstd::prelude::*;

verus! {

/// A test-and-set flag that keeps a callback from running inside itself.
///
/// One guard belongs to one thread. While a callback is in flight the guard
/// is held, and a nested attempt to enter is told to give up at once.
pub struct ReentrancyGuard {
    held: bool,
}

impl ReentrancyGuard {
    /// Whether a callback is in flight.
    pub closed spec fn held(&self) -> bool {
        self.held
    }

    /// A guard that nobody holds.
    pub fn new() -> (guard: Self)
        ensures
            !guard.held(),
    {
        ReentrancyGuard { held: false }
    }

    /// Whether a callback is in flight.
    pub fn is_held(&self) -> (held: bool)
        ensures
            held == self.held(),
    {
        self.held
    }

    /// Tests and sets the flag in one step. Returns `true` when the caller has
    /// acquired the guard, `false` when it was already held; the guard is held
    /// afterwards either way.
    pub fn enter(&mut self) -> (acquired: bool)
        ensures
            acquired == !old(self).held(),
            final(self).held(),
            old(self).held() ==> *final(self) == *old(self),
    {
        let was_held = self.held;
        self.held = true;
        !was_held
    }

    /// Releases the guard.
    pub fn exit(&mut self)
        ensures
            !final(self).held(),
    {
        self.held = false;
    }
}

} // verus!
