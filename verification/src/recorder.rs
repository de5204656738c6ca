use vstd::prelude::*;

use crate::instance::Instance;
use crate::instance::MemorySnapshot;
use crate::outcome::ExecutionOutcome;

verus! {

/// A structured forensic report for one finished invocation: the outcome,
/// a snapshot of the instance's memory and global cells as of the exact
/// stopping instant, and a host-supplied timestamp.
pub struct Report {
    pub outcome: ExecutionOutcome,
    pub snapshot: MemorySnapshot,
    pub timestamp: u64,
}

/// Builds the report for one finished invocation. The snapshot copies the
/// instance exactly as it stands now — after every mutation committed
/// before the stopping point, and no later one, since execution has
/// stopped. The timestamp comes from the host, which owns the clock.
pub fn capture(inst: &Instance, outcome: ExecutionOutcome, timestamp: u64) -> (report: Report)
    requires
        inst@.wf(),
    ensures
        report.outcome == outcome,
        report.timestamp == timestamp,
        report.snapshot.mem@ == inst@.mem,
        report.snapshot.state == inst@.state,
        report.snapshot.history@ == inst@.history,
        report.snapshot.history_index as int == inst@.history_index,
{
    Report { outcome, snapshot: inst.snapshot(), timestamp }
}

} // verus!
