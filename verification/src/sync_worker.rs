//! The background worker's wake-up rules.
//!
//! The worker runs one cycle shortly after start-up, then once per
//! heartbeat; requests for a sync (pokes) are counted and coalesced, so a
//! burst of pokes never causes more than one extra cycle.
use vstd::prelude::*;
use crate::sync::{SyncCycleError, SyncCycleReport};

verus! {

/// Heartbeat between cycles, in seconds.
pub const PERIODIC_WAKE_SECS: u64 = 300;

/// Delay before the first cycle after start-up, in seconds.
pub const STARTUP_DELAY_SECS: u64 = 2;

/// Pending sync requests since the last cycle.
#[derive(Debug, Default)]
pub struct SyncWaker {
    pub pending_pokes: u64,
}

impl SyncWaker {
    /// Records one request for a sync.
    pub fn poke(&mut self)
        requires
            old(self).pending_pokes < u64::MAX,
        ensures
            final(self).pending_pokes == old(self).pending_pokes + 1,
    {
        self.pending_pokes = self.pending_pokes + 1;
    }

    /// Takes every pending request at once, as the start of a cycle does.
    pub fn take_pokes(&mut self) -> (n: u64)
        ensures
            n == old(self).pending_pokes,
            final(self).pending_pokes == 0,
    {
        let n = self.pending_pokes;
        self.pending_pokes = 0;
        n
    }
}

/// The handle the application keeps to ask for a sync.
#[derive(Debug, Default)]
pub struct SyncWorkerHandle {
    pub waker: SyncWaker,
}

impl SyncWorkerHandle {
    pub fn request_sync(&mut self)
        requires
            old(self).waker.pending_pokes < u64::MAX,
        ensures
            final(self).waker.pending_pokes == old(self).waker.pending_pokes + 1,
    {
        self.waker.poke();
    }
}

/// After a cycle: another one is requested at once only when the pull
/// stopped at its page bound with more content waiting; a failed cycle
/// (already recorded durably) waits for the next trigger.
pub fn wants_immediate_cycle(result: &Result<SyncCycleReport, SyncCycleError>) -> (b: bool)
    ensures
        b == (result matches Ok(report) && report.pages_applied
            >= crate::sync_pull::MAX_PAGES_PER_CYCLE),
{
    match result {
        Ok(report) => report.has_more(),
        Err(_) => false,
    }
}

} // verus!
