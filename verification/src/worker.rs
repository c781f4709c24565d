//! The worker protocol: how a claimed job is finalized.
//!
//! A worker claims the oldest pending job through
//! [`JobStore::claim_next_pending`], checks that the input file still
//! exists, runs the compression, and records the outcome with one of the
//! operations below.  Each operation enforces the state machine: it acts
//! on a job it holds in `processing` and moves it to a terminal state,
//! so every status only ever advances.

use vstd::prelude::*;

use crate::job::{Job, is_completed_from, with_status};
use crate::naming::{dec_seq, output_file_name, path_under};
use crate::status::JobStatus;
use crate::store::{
    JobStore, id_has_status, lemma_unique_id, seq_has_id, statuses_advance,
};

verus! {

impl JobStore {
    /// Records that the input file of the claimed job was missing: the job
    /// moves from `processing` to the terminal `error` state, nothing else
    /// changes, and no compressed path is ever set for it.
    pub fn report_missing_input(&mut self, id: u64)
        requires
            old(self).wf(),
            id_has_status(old(self).jobs@, id, JobStatus::Processing),
        ensures
            final(self).wf(),
            final(self).next_id == old(self).next_id,
            final(self).jobs@.len() == old(self).jobs@.len(),
            forall|i: int|
                0 <= i < old(self).jobs@.len() && old(self).jobs@[i].id != id ==> final(self).jobs@[i] == old(self).jobs@[i],
            forall|i: int|
                0 <= i < old(self).jobs@.len() && old(self).jobs@[i].id == id ==> final(self).jobs@[i] == with_status(old(self).jobs@[i], JobStatus::Error),
            statuses_advance(old(self).jobs@, final(self).jobs@),
    {
        self.record_terminal_failure(id);
    }

    /// Records that the compression call failed: the job moves from
    /// `processing` to the terminal `error` state and nothing else changes.
    pub fn report_failure(&mut self, id: u64)
        requires
            old(self).wf(),
            id_has_status(old(self).jobs@, id, JobStatus::Processing),
        ensures
            final(self).wf(),
            final(self).next_id == old(self).next_id,
            final(self).jobs@.len() == old(self).jobs@.len(),
            forall|i: int|
                0 <= i < old(self).jobs@.len() && old(self).jobs@[i].id != id ==> final(self).jobs@[i] == old(self).jobs@[i],
            forall|i: int|
                0 <= i < old(self).jobs@.len() && old(self).jobs@[i].id == id ==> final(self).jobs@[i] == with_status(old(self).jobs@[i], JobStatus::Error),
            statuses_advance(old(self).jobs@, final(self).jobs@),
    {
        self.record_terminal_failure(id);
    }

    fn record_terminal_failure(&mut self, id: u64)
        requires
            old(self).wf(),
            id_has_status(old(self).jobs@, id, JobStatus::Processing),
        ensures
            final(self).wf(),
            final(self).next_id == old(self).next_id,
            final(self).jobs@.len() == old(self).jobs@.len(),
            forall|i: int|
                0 <= i < old(self).jobs@.len() && old(self).jobs@[i].id != id ==> final(self).jobs@[i] == old(self).jobs@[i],
            forall|i: int|
                0 <= i < old(self).jobs@.len() && old(self).jobs@[i].id == id ==> final(self).jobs@[i] == with_status(old(self).jobs@[i], JobStatus::Error),
            statuses_advance(old(self).jobs@, final(self).jobs@),
    {
        self.update_job_status(id, JobStatus::Error);
        proof {
            let i0 = choose|i: int|
                0 <= i < old(self).jobs@.len() && old(self).jobs@[i].id == id && old(
                    self,
                ).jobs@[i].status == JobStatus::Processing;
            lemma_unique_id(old(self).jobs@, i0);
        }
    }

    /// Records a successful compression: stores the output path and the
    /// measured metrics, then moves the job from `processing` to the
    /// terminal `done` state.  Every other row is untouched.
    pub fn report_success(
        &mut self,
        id: u64,
        compressed_path: &str,
        original_size: u64,
        compressed_size: u64,
        processing_time_ms: u64,
    )
        requires
            old(self).wf(),
            id_has_status(old(self).jobs@, id, JobStatus::Processing),
        ensures
            final(self).wf(),
            final(self).next_id == old(self).next_id,
            final(self).jobs@.len() == old(self).jobs@.len(),
            forall|i: int|
                0 <= i < old(self).jobs@.len() && old(self).jobs@[i].id != id ==> final(self).jobs@[i] == old(self).jobs@[i],
            forall|i: int|
                0 <= i < old(self).jobs@.len() && old(self).jobs@[i].id == id ==> is_completed_from(
                    final(self).jobs@[i],
                    old(self).jobs@[i],
                    compressed_path@,
                    original_size,
                    compressed_size,
                    processing_time_ms,
                ),
            statuses_advance(old(self).jobs@, final(self).jobs@),
    {
        self.update_compressed_path(id, compressed_path);
        self.update_job_metrics(id, original_size, compressed_size, processing_time_ms);
        self.update_job_status(id, JobStatus::Done);
        proof {
            let i0 = choose|i: int|
                0 <= i < old(self).jobs@.len() && old(self).jobs@[i].id == id && old(
                    self,
                ).jobs@[i].status == JobStatus::Processing;
            lemma_unique_id(old(self).jobs@, i0);
        }
    }
}

/// What the worker decides to do with a claimed job once it has looked
/// for the input file.
pub enum ExecutionDecision {
    /// The input file is gone: record the job as failed, nothing to run.
    MissingInput,
    /// Run the compression from the job's input to the derived output
    /// path.
    Run { input_path: String, output_path: String },
}

/// The worker's decision for a claimed job: if the input file is missing
/// the job is to be failed at once and never retried; otherwise the
/// compression runs from the job's recorded input path to
/// `<dir>/<id>_<original filename>`.
pub fn plan_execution(job: &Job, compressed_dir: &str, input_exists: bool) -> (r:
    ExecutionDecision)
    ensures
        !input_exists ==> r is MissingInput,
        input_exists ==> (r matches ExecutionDecision::Run { input_path, output_path }
            && input_path == job.original_path && output_path@ == compressed_dir@ + "/"@
            + dec_seq(job.id as int) + "_"@ + job.original_filename@),
{
    if !input_exists {
        ExecutionDecision::MissingInput
    } else {
        let name = output_file_name(job.id, job.original_filename.as_str());
        let output_path = path_under(compressed_dir, name.as_str());
        proof {
            assert(output_path@ =~= compressed_dir@ + "/"@ + dec_seq(job.id as int) + "_"@
                + job.original_filename@);
        }
        ExecutionDecision::Run { input_path: job.original_path.clone(), output_path }
    }
}

/// Metrics round trip: once a successful compression has been recorded
/// for a job — any table change of the shape `report_success` promises —
/// a point lookup of that id finds exactly the recorded output path, the
/// recorded sizes and the recorded time, on a `done` job.
pub proof fn lemma_metrics_round_trip(
    before: Seq<Job>,
    after: Seq<Job>,
    id: u64,
    path: Seq<char>,
    original_size: u64,
    compressed_size: u64,
    processing_time_ms: u64,
)
    requires
        id_has_status(before, id, JobStatus::Processing),
        after.len() == before.len(),
        forall|i: int|
            0 <= i < before.len() && before[i].id != id ==> after[i] == #[trigger] before[i],
        forall|i: int|
            0 <= i < before.len() && #[trigger] before[i].id == id ==> is_completed_from(
                after[i],
                before[i],
                path,
                original_size,
                compressed_size,
                processing_time_ms,
            ),
    ensures
        seq_has_id(after, id),
        forall|i: int|
            0 <= i < after.len() && #[trigger] after[i].id == id ==> (after[i].status
                == JobStatus::Done && (after[i].compressed_path matches Some(p) && p@ == path)
                && after[i].original_size == original_size && after[i].compressed_size
                == compressed_size && after[i].processing_time_ms == processing_time_ms),
{
    let w = choose|i: int|
        0 <= i < before.len() && before[i].id == id && before[i].status == JobStatus::Processing;
    assert(after[w].id == id);
    assert forall|i: int| 0 <= i < after.len() && #[trigger] after[i].id == id implies (
        after[i].status == JobStatus::Done && (after[i].compressed_path matches Some(p) && p@
        == path) && after[i].original_size == original_size && after[i].compressed_size
        == compressed_size && after[i].processing_time_ms == processing_time_ms) by {
        if before[i].id != id {
            assert(after[i] == before[i]);
            assert(false);
        }
    }
}

/// A job that failed for a missing input keeps its empty output: once a
/// table change of the shape `report_missing_input` is applied to a
/// claimed job that has no compressed path yet, the job reads `error`
/// and its compressed path is still unset — it never appears.
pub proof fn lemma_missing_input_no_output(before: Seq<Job>, after: Seq<Job>, id: u64)
    requires
        id_has_status(before, id, JobStatus::Processing),
        forall|i: int|
            0 <= i < before.len() && #[trigger] before[i].id == id ==> before[i].compressed_path
                is None,
        after.len() == before.len(),
        forall|i: int|
            0 <= i < before.len() && before[i].id != id ==> after[i] == #[trigger] before[i],
        forall|i: int|
            0 <= i < before.len() && #[trigger] before[i].id == id ==> after[i] == with_status(
                before[i],
                JobStatus::Error,
            ),
    ensures
        seq_has_id(after, id),
        forall|i: int|
            0 <= i < after.len() && #[trigger] after[i].id == id ==> (after[i].status
                == JobStatus::Error && after[i].compressed_path is None),
{
    let w = choose|i: int|
        0 <= i < before.len() && before[i].id == id && before[i].status == JobStatus::Processing;
    assert(after[w].id == id);
    assert forall|i: int| 0 <= i < after.len() && #[trigger] after[i].id == id implies (
        after[i].status == JobStatus::Error && after[i].compressed_path is None) by {
        if before[i].id != id {
            assert(after[i] == before[i]);
            assert(false);
        }
    }
}

} // verus!
