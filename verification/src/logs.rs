//! Per-job worker log lines.

use vstd::prelude::*;

verus! {

/// One log line a worker attached to a job.
pub struct LogEntry {
    pub job_id: u64,
    pub message: String,
}

/// The durable table of worker log lines, in insertion order.
pub struct WorkerLogs {
    pub entries: Vec<LogEntry>,
}

impl WorkerLogs {
    pub fn new() -> (r: Self)
        ensures
            r.entries@.len() == 0,
    {
        WorkerLogs { entries: Vec::new() }
    }

    /// Appends one log line for a job.
    pub fn add_log(&mut self, job_id: u64, msg: &str)
        ensures
            final(self).entries@.len() == old(self).entries@.len() + 1,
            forall|i: int|
                0 <= i < old(self).entries@.len() ==> final(self).entries@[i] == old(
                    self,
                ).entries@[i],
            final(self).entries@.last().job_id == job_id,
            final(self).entries@.last().message@ == msg@,
    {
        self.entries.push(LogEntry { job_id, message: msg.to_owned() });
    }
}

} // verus!
