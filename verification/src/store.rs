//! The job store: durable bookkeeping of job state.
//!
//! This models the single shared table that every process coordinates
//! through.  Rows are kept in creation order; ids are assigned strictly
//! increasing and never reused, so the row order is also the id order and
//! the FIFO order.  The update operations are unconditional single-row
//! overwrites, exactly as the backing table performs them; the worker
//! protocol on top of them lives in [`crate::worker`].
//!
//! `claim_next_pending` selects the oldest pending row and marks it
//! `processing` in one operation, so that no two pollers can claim the
//! same job.

use vstd::prelude::*;

use crate::job::{Job, is_fresh_pending, with_compressed_path, with_metrics, with_status};
use crate::status::{JobStatus, status_reaches};

verus! {

/// Row ids appear in strictly increasing order.
pub open spec fn ids_strictly_increasing(jobs: Seq<Job>) -> bool {
    forall|i: int, j: int| 0 <= i < j < jobs.len() ==> jobs[i].id < jobs[j].id
}

/// Every row id lies below `bound`.
pub open spec fn ids_below(jobs: Seq<Job>, bound: u64) -> bool {
    forall|i: int| 0 <= i < jobs.len() ==> jobs[i].id < bound
}

/// Some row carries the id.
pub open spec fn seq_has_id(jobs: Seq<Job>, id: u64) -> bool {
    exists|i: int| 0 <= i < jobs.len() && jobs[i].id == id
}

/// Some row carries the id with the given status.
pub open spec fn id_has_status(jobs: Seq<Job>, id: u64, st: JobStatus) -> bool {
    exists|i: int| 0 <= i < jobs.len() && jobs[i].id == id && jobs[i].status == st
}

pub open spec fn is_pending(j: Job) -> bool {
    j.status == JobStatus::Pending
}

/// Some row is still waiting for a worker.
pub open spec fn seq_has_pending(jobs: Seq<Job>) -> bool {
    exists|i: int| 0 <= i < jobs.len() && is_pending(jobs[i])
}

/// `k` is the position of the oldest pending row: pending, and nothing
/// before it is pending.  In a well-formed store the row order is the id
/// order, so this row also has the least pending id.
pub open spec fn is_first_pending(jobs: Seq<Job>, k: int) -> bool {
    &&& 0 <= k < jobs.len()
    &&& is_pending(jobs[k])
    &&& forall|i: int| 0 <= i < k ==> !is_pending(jobs[i])
}

/// Every status moved only forward along the job state machine.
pub open spec fn statuses_advance(before: Seq<Job>, after: Seq<Job>) -> bool {
    &&& before.len() == after.len()
    &&& forall|i: int| 0 <= i < before.len() ==> status_reaches(before[i].status, after[i].status)
}

/// The durable job table.  One row per job, in creation order.
pub struct JobStore {
    pub jobs: Vec<Job>,
    pub next_id: u64,
}

impl JobStore {
    /// Well-formedness: ids strictly increase along the table, and all lie
    /// below the next id to be assigned.
    pub open spec fn wf(&self) -> bool {
        &&& ids_strictly_increasing(self.jobs@)
        &&& ids_below(self.jobs@, self.next_id)
        &&& self.next_id >= 1
    }

    /// An empty store; the first job will receive id 1.
    pub fn new() -> (s: Self)
        ensures
            s.wf(),
            s.jobs@.len() == 0,
            s.next_id == 1,
    {
        JobStore { jobs: Vec::new(), next_id: 1 }
    }

    /// Inserts a new row with status `pending`, size and time fields
    /// zeroed, and the given creation timestamp; returns the assigned id.
    pub fn create_job(&mut self, filename: &str, path: &str, created_at: u64) -> (r: u64)
        requires
            old(self).wf(),
            old(self).next_id < u64::MAX,
        ensures
            final(self).wf(),
            r == old(self).next_id,
            final(self).next_id == old(self).next_id + 1,
            final(self).jobs@.len() == old(self).jobs@.len() + 1,
            forall|i: int|
                0 <= i < old(self).jobs@.len() ==> final(self).jobs@[i] == old(self).jobs@[i],
            is_fresh_pending(final(self).jobs@.last(), r, filename@, path@, created_at),
    {
        let id = self.next_id;
        let job = Job {
            id,
            original_filename: filename.to_owned(),
            original_path: path.to_owned(),
            compressed_path: None,
            status: JobStatus::Pending,
            original_size: 0,
            compressed_size: 0,
            processing_time_ms: 0,
            created_at,
        };
        self.jobs.push(job);
        self.next_id = id + 1;
        proof {
            assert forall|i: int, j: int|
                0 <= i < j < self.jobs@.len() implies self.jobs@[i].id < self.jobs@[j].id by {
                if j < self.jobs@.len() - 1 {
                    assert(old(self).jobs@[i].id < old(self).jobs@[j].id);
                }
            }
        }
        id
    }

    /// Point lookup by primary key.
    pub fn get_job_by_id(&self, id: u64) -> (r: Option<&Job>)
        requires
            self.wf(),
        ensures
            r is Some <==> seq_has_id(self.jobs@, id),
            forall|i: int|
                0 <= i < self.jobs@.len() && self.jobs@[i].id == id ==> (r matches Some(j)
                    && *j == self.jobs@[i]),
    {
        let mut i: usize = 0;
        while i < self.jobs.len()
            invariant
                self.wf(),
                i <= self.jobs@.len(),
                forall|k: int| 0 <= k < i ==> self.jobs@[k].id != id,
            decreases self.jobs@.len() - i,
        {
            if self.jobs[i].id == id {
                proof {
                    lemma_unique_id(self.jobs@, i as int);
                }
                return Some(&self.jobs[i]);
            }
            i = i + 1;
        }
        None
    }

    /// Returns the oldest pending row without claiming it.
    ///
    /// Reading and claiming as two separate calls leaves a race window
    /// between concurrent pollers; a worker should use
    /// [`Self::claim_next_pending`], which does both in one operation.
    pub fn fetch_next_pending_job(&self) -> (r: Option<&Job>)
        ensures
            r is Some <==> seq_has_pending(self.jobs@),
            forall|k: int|
                is_first_pending(self.jobs@, k) ==> (r matches Some(j) && *j == self.jobs@[k]),
    {
        let mut i: usize = 0;
        while i < self.jobs.len()
            invariant
                i <= self.jobs@.len(),
                forall|k: int| 0 <= k < i ==> !is_pending(self.jobs@[k]),
            decreases self.jobs@.len() - i,
        {
            if self.jobs[i].status == JobStatus::Pending {
                return Some(&self.jobs[i]);
            }
            i = i + 1;
        }
        None
    }

    /// Atomically selects the oldest pending row, marks it `processing`,
    /// and returns its id: the conditional-update claim that guarantees
    /// at most one claimant per job.
    pub fn claim_next_pending(&mut self) -> (r: Option<u64>)
        requires
            old(self).wf(),
        ensures
            final(self).wf(),
            final(self).next_id == old(self).next_id,
            r is Some <==> seq_has_pending(old(self).jobs@),
            r is None ==> final(self).jobs@ == old(self).jobs@,
            forall|k: int|
                is_first_pending(old(self).jobs@, k) ==> (final(self).jobs@ == old(self).jobs@.update(k, with_status(old(self).jobs@[k], JobStatus::Processing)) && r
                    == Some(old(self).jobs@[k].id)),
            statuses_advance(old(self).jobs@, final(self).jobs@),
    {
        let mut i: usize = 0;
        while i < self.jobs.len()
            invariant
                old(self).wf(),
                i <= self.jobs@.len(),
                *self == *old(self),
                forall|k: int| 0 <= k < i ==> !is_pending(self.jobs@[k]),
            decreases self.jobs@.len() - i,
        {
            if self.jobs[i].status == JobStatus::Pending {
                let id = self.jobs[i].id;
                self.jobs[i].status = JobStatus::Processing;
                return Some(id);
            }
            i = i + 1;
        }
        None
    }

    /// Unconditional overwrite of the status field; reports whether a row
    /// with the id exists.  Performs no validation of the transition: the
    /// callers enforce the state machine.
    pub fn update_job_status(&mut self, id: u64, new_status: JobStatus) -> (r: bool)
        requires
            old(self).wf(),
        ensures
            final(self).wf(),
            final(self).next_id == old(self).next_id,
            final(self).jobs@.len() == old(self).jobs@.len(),
            forall|i: int|
                0 <= i < old(self).jobs@.len() && old(self).jobs@[i].id != id ==> final(self).jobs@[i] == old(self).jobs@[i],
            forall|i: int|
                0 <= i < old(self).jobs@.len() && old(self).jobs@[i].id == id ==> final(self).jobs@[i] == with_status(old(self).jobs@[i], new_status),
            r == seq_has_id(old(self).jobs@, id),
    {
        let mut i: usize = 0;
        while i < self.jobs.len()
            invariant
                old(self).wf(),
                i <= self.jobs@.len(),
                *self == *old(self),
                forall|k: int| 0 <= k < i ==> self.jobs@[k].id != id,
            decreases self.jobs@.len() - i,
        {
            if self.jobs[i].id == id {
                self.jobs[i].status = new_status;
                proof {
                    lemma_unique_id(old(self).jobs@, i as int);
                }
                return true;
            }
            i = i + 1;
        }
        false
    }

    /// Unconditional overwrite of the compressed path; reports whether a
    /// row with the id exists.
    pub fn update_compressed_path(&mut self, id: u64, path: &str) -> (r: bool)
        requires
            old(self).wf(),
        ensures
            final(self).wf(),
            final(self).next_id == old(self).next_id,
            final(self).jobs@.len() == old(self).jobs@.len(),
            forall|i: int|
                0 <= i < old(self).jobs@.len() && old(self).jobs@[i].id != id ==> final(self).jobs@[i] == old(self).jobs@[i],
            forall|i: int|
                0 <= i < old(self).jobs@.len() && old(self).jobs@[i].id == id ==> (final(self).jobs@[i] == with_compressed_path(old(self).jobs@[i], final(self).jobs@[i].compressed_path)
                    && (final(self).jobs@[i].compressed_path matches Some(p) && p@ == path@)),
            r == seq_has_id(old(self).jobs@, id),
    {
        let mut i: usize = 0;
        while i < self.jobs.len()
            invariant
                old(self).wf(),
                i <= self.jobs@.len(),
                *self == *old(self),
                forall|k: int| 0 <= k < i ==> self.jobs@[k].id != id,
            decreases self.jobs@.len() - i,
        {
            if self.jobs[i].id == id {
                self.jobs[i].compressed_path = Some(path.to_owned());
                proof {
                    lemma_unique_id(old(self).jobs@, i as int);
                }
                return true;
            }
            i = i + 1;
        }
        false
    }

    /// Unconditional overwrite of the three metric fields; reports whether
    /// a row with the id exists.
    pub fn update_job_metrics(
        &mut self,
        id: u64,
        original_size: u64,
        compressed_size: u64,
        processing_time_ms: u64,
    ) -> (r: bool)
        requires
            old(self).wf(),
        ensures
            final(self).wf(),
            final(self).next_id == old(self).next_id,
            final(self).jobs@.len() == old(self).jobs@.len(),
            forall|i: int|
                0 <= i < old(self).jobs@.len() && old(self).jobs@[i].id != id ==> final(self).jobs@[i] == old(self).jobs@[i],
            forall|i: int|
                0 <= i < old(self).jobs@.len() && old(self).jobs@[i].id == id ==> final(self).jobs@[i] == with_metrics(
                    old(self).jobs@[i],
                    original_size,
                    compressed_size,
                    processing_time_ms,
                ),
            r == seq_has_id(old(self).jobs@, id),
    {
        let mut i: usize = 0;
        while i < self.jobs.len()
            invariant
                old(self).wf(),
                i <= self.jobs@.len(),
                *self == *old(self),
                forall|k: int| 0 <= k < i ==> self.jobs@[k].id != id,
            decreases self.jobs@.len() - i,
        {
            if self.jobs[i].id == id {
                let j = &mut self.jobs[i];
                j.original_size = original_size;
                j.compressed_size = compressed_size;
                j.processing_time_ms = processing_time_ms;
                proof {
                    lemma_unique_id(old(self).jobs@, i as int);
                }
                return true;
            }
            i = i + 1;
        }
        false
    }
}

/// In a table with strictly increasing ids, no other row shares the id of
/// the row at `k`.
pub proof fn lemma_unique_id(jobs: Seq<Job>, k: int)
    requires
        ids_strictly_increasing(jobs),
        0 <= k < jobs.len(),
    ensures
        forall|i: int| 0 <= i < jobs.len() && i != k ==> jobs[i].id != jobs[k].id,
{
    assert forall|i: int| 0 <= i < jobs.len() && i != k implies jobs[i].id != jobs[k].id by {
        if i < k {
            assert(jobs[i].id < jobs[k].id);
        } else {
            assert(jobs[k].id < jobs[i].id);
        }
    }
}

} // verus!
