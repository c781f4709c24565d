//! The job record: one compression request tracked through its lifecycle.

use vstd::prelude::*;

use crate::status::JobStatus;

verus! {

/// One unit of work.  A row of the durable job table.
///
/// `id` is the surrogate key, assigned by the store on creation, strictly
/// increasing and never reused; it doubles as the FIFO ordering key.
/// `processing_time_ms` holds the elapsed wall-clock time of the
/// compression call in milliseconds, zero until a worker records it.
#[derive(Clone, Debug)]
pub struct Job {
    pub id: u64,
    pub original_filename: String,
    pub original_path: String,
    pub compressed_path: Option<String>,
    pub status: JobStatus,
    pub original_size: u64,
    pub compressed_size: u64,
    pub processing_time_ms: u64,
    pub created_at: u64,
}

/// The job as it stands right after creation: pending, no output,
/// all metrics zeroed.
pub open spec fn is_fresh_pending(
    j: Job,
    id: u64,
    filename: Seq<char>,
    path: Seq<char>,
    created_at: u64,
) -> bool {
    &&& j.id == id
    &&& j.original_filename@ == filename
    &&& j.original_path@ == path
    &&& j.compressed_path is None
    &&& j.status == JobStatus::Pending
    &&& j.original_size == 0
    &&& j.compressed_size == 0
    &&& j.processing_time_ms == 0
    &&& j.created_at == created_at
}

/// The same job with its status overwritten and every other field kept.
pub open spec fn with_status(j: Job, st: JobStatus) -> Job {
    Job { status: st, ..j }
}

/// The same job with the compressed path overwritten.
pub open spec fn with_compressed_path(j: Job, path: Option<String>) -> Job {
    Job { compressed_path: path, ..j }
}

/// The same job with the three metric fields overwritten.
pub open spec fn with_metrics(
    j: Job,
    original_size: u64,
    compressed_size: u64,
    processing_time_ms: u64,
) -> Job {
    Job { original_size, compressed_size, processing_time_ms, ..j }
}

/// What a successful worker run leaves behind: terminal `Done` status,
/// the output path, and the recorded metrics; identity fields untouched.
pub open spec fn is_completed_from(
    j: Job,
    before: Job,
    compressed_path: Seq<char>,
    original_size: u64,
    compressed_size: u64,
    processing_time_ms: u64,
) -> bool {
    &&& j.id == before.id
    &&& j.original_filename == before.original_filename
    &&& j.original_path == before.original_path
    &&& j.created_at == before.created_at
    &&& j.status == JobStatus::Done
    &&& j.compressed_path matches Some(p) && p@ == compressed_path
    &&& j.original_size == original_size
    &&& j.compressed_size == compressed_size
    &&& j.processing_time_ms == processing_time_ms
}

} // verus!
