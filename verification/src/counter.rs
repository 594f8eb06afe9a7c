//! The counter contract's rules: a count that is set once, goes up without
//! wrapping, never goes below zero, and is kept alive by every call that
//! changes it. The contract's storage is the host's; this is what the
//! contract decides between reading it and writing it.
//!
//! A call that the rules refuse aborts the whole invocation. Here such a
//! call is left out by `requires`: whoever runs the contract tests the
//! condition first and aborts.
use vstd::prelude::*;

verus! {

/// The window, in seconds, for which a call that changes the count keeps
/// it alive: seven days.
pub const LIVENESS_WINDOW: u32 = 604_800;

/// The contract's state: the stored count, if one was ever stored, and the
/// liveness window that the last change granted.
#[derive(Clone, Copy, Debug, PartialEq, Eq)]
pub struct CounterContract {
    pub stored: Option<u32>,
    pub live_for: u32,
}

impl CounterContract {
    /// The count that the contract reports: the stored one, or zero where
    /// none was stored.
    pub open spec fn count(self) -> u32 {
        match self.stored {
            Some(count) => count,
            None => 0,
        }
    }

    /// The sum of the count and `delta`, held at the largest 32-bit number.
    pub open spec fn raised(self, delta: u32) -> u32 {
        if self.count() + delta > u32::MAX {
            u32::MAX
        } else {
            (self.count() + delta) as u32
        }
    }

    /// A contract that holds no count yet.
    pub fn new() -> (contract: CounterContract)
        ensures
            contract.stored is None,
            contract.live_for == 0,
    {
        CounterContract { stored: None, live_for: 0 }
    }

    /// Stores the first count and opens the liveness window.
    ///
    /// It can be called once: on a contract that holds a count, also one
    /// that `increment` or `decrement` stored, the invocation aborts.
    pub fn initialize(&mut self, count: u32)
        requires
            old(self).stored is None,
        ensures
            final(self).stored == Some(count),
            final(self).live_for == LIVENESS_WINDOW,
    {
        self.stored = Some(count);
        self.live_for = LIVENESS_WINDOW;
    }

    /// The current count: zero where none was stored.
    pub fn get_count(&self) -> (count: u32)
        ensures
            count == self.count(),
    {
        match self.stored {
            Some(count) => count,
            None => 0,
        }
    }

    /// Raises the count by `delta`, stopping at the largest 32-bit number,
    /// stores it, renews the liveness window and returns the new count.
    pub fn increment(&mut self, delta: u32) -> (count: u32)
        ensures
            count == old(self).raised(delta),
            final(self).stored == Some(count),
            final(self).live_for == LIVENESS_WINDOW,
    {
        let current: u32 = self.get_count();
        let count: u32 = if delta > u32::MAX - current {
            u32::MAX
        } else {
            current + delta
        };
        self.stored = Some(count);
        self.live_for = LIVENESS_WINDOW;
        count
    }

    /// Lowers the count by `delta`, stores it, renews the liveness window
    /// and returns the new count.
    ///
    /// Where the count is smaller than `delta` the invocation aborts: the
    /// count never goes below zero.
    pub fn decrement(&mut self, delta: u32) -> (count: u32)
        requires
            old(self).count() >= delta,
        ensures
            count == old(self).count() - delta,
            final(self).stored == Some(count),
            final(self).live_for == LIVENESS_WINDOW,
    {
        let count: u32 = self.get_count() - delta;
        self.stored = Some(count);
        self.live_for = LIVENESS_WINDOW;
        count
    }
}

} // verus!
