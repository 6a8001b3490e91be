//! Admission control for remote connections: a counter bounding how many
//! may be handled at once.
//!
//! The counter is the one shared resource outside the actor; callers keep
//! it behind a lock and hold the lock only around `try_admit` and
//! `release`, never across a blocking accept or handshake.

use vstd::prelude::*;

verus! {

/// How many connections may be handled concurrently.
pub const POSSIBLE_CONCURRENT_CONNECTIONS: u32 = 32;

/// The shared admission state: how many connection handlers run right now,
/// and whether the process is shutting down.
pub struct TcpManager {
    pub running_threads_amount: u32,
    pub shut_down: bool,
}

impl TcpManager {
    /// A fresh manager: no running handlers, not shutting down.
    pub fn new() -> (r: TcpManager)
        ensures
            r.running_threads_amount == 0,
            !r.shut_down,
    {
        TcpManager { running_threads_amount: 0, shut_down: false }
    }

    /// Claims one connection slot if one is free and the process is not
    /// shutting down: exactly then the count rises by one and the claim is
    /// granted; otherwise nothing changes.
    pub fn try_admit(&mut self) -> (admitted: bool)
        ensures
            admitted == (old(self).running_threads_amount < POSSIBLE_CONCURRENT_CONNECTIONS && !old(
                self,
            ).shut_down),
            admitted ==> final(self).running_threads_amount == old(self).running_threads_amount
                + 1,
            !admitted ==> final(self).running_threads_amount == old(self).running_threads_amount,
            final(self).shut_down == old(self).shut_down,
    {
        if self.running_threads_amount < POSSIBLE_CONCURRENT_CONNECTIONS && !self.shut_down {
            self.running_threads_amount = self.running_threads_amount + 1;
            true
        } else {
            false
        }
    }

    /// Returns one claimed slot; callers release exactly what they
    /// admitted, so the count is positive.
    pub fn release(&mut self)
        requires
            old(self).running_threads_amount > 0,
        ensures
            final(self).running_threads_amount == old(self).running_threads_amount - 1,
            final(self).shut_down == old(self).shut_down,
    {
        self.running_threads_amount = self.running_threads_amount - 1;
    }

    /// Marks the process as shutting down; no further admissions succeed.
    pub fn begin_shutdown(&mut self)
        ensures
            final(self).shut_down,
            final(self).running_threads_amount == old(self).running_threads_amount,
    {
        self.shut_down = true;
    }
}

} // verus!
