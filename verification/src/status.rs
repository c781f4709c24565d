//! Job lifecycle states and the legal transitions between them.
//!
//! A job starts `Pending`, is moved to `Processing` by the worker that
//! claims it, and ends in one of the terminal states `Done` or `Error`.
//! No transition ever leaves a terminal state.

use vstd::prelude::*;

verus! {

/// The lifecycle state of a job.
#[derive(Clone, Copy, Debug, PartialEq, Eq, Structural)]
pub enum JobStatus {
    Pending,
    Processing,
    Done,
    Error,
}

/// One legal step of the job state machine (reflexive: staying put is legal).
pub open spec fn status_step(a: JobStatus, b: JobStatus) -> bool {
    ||| a == b
    ||| (a == JobStatus::Pending && b == JobStatus::Processing)
    ||| (a == JobStatus::Processing && b == JobStatus::Done)
    ||| (a == JobStatus::Processing && b == JobStatus::Error)
}

/// Reachability in the state machine: `b` can be observed at some point
/// after `a` was observed.  This is the reflexive-transitive closure of
/// `status_step`, written out state by state.
pub open spec fn status_reaches(a: JobStatus, b: JobStatus) -> bool {
    match a {
        JobStatus::Pending => true,
        JobStatus::Processing => b != JobStatus::Pending,
        JobStatus::Done => b == JobStatus::Done,
        JobStatus::Error => b == JobStatus::Error,
    }
}

/// A terminal status admits no further change.
pub open spec fn is_terminal(s: JobStatus) -> bool {
    s == JobStatus::Done || s == JobStatus::Error
}

/// Every legal step stays within reachability.
pub proof fn lemma_step_implies_reaches(a: JobStatus, b: JobStatus)
    requires
        status_step(a, b),
    ensures
        status_reaches(a, b),
{
}

/// Reachability is transitive, so any chain of legal steps is an
/// in-order walk down `pending -> processing -> {done | error}`.
pub proof fn lemma_reaches_transitive(a: JobStatus, b: JobStatus, c: JobStatus)
    requires
        status_reaches(a, b),
        status_reaches(b, c),
    ensures
        status_reaches(a, c),
{
}

/// A terminal status reaches only itself.
pub proof fn lemma_terminal_frozen(a: JobStatus, b: JobStatus)
    requires
        is_terminal(a),
        status_reaches(a, b),
    ensures
        b == a,
{
}

impl JobStatus {
    /// The status as it is stored in the durable table.
    pub fn as_str(&self) -> (r: &'static str)
        ensures
            *self == JobStatus::Pending ==> r@ == "pending"@,
            *self == JobStatus::Processing ==> r@ == "processing"@,
            *self == JobStatus::Done ==> r@ == "done"@,
            *self == JobStatus::Error ==> r@ == "error"@,
    {
        match self {
            JobStatus::Pending => "pending",
            JobStatus::Processing => "processing",
            JobStatus::Done => "done",
            JobStatus::Error => "error",
        }
    }
}

} // verus!
