//! What the front end reports back to a client about a job.

use vstd::prelude::*;
use vstd::string::StringExecFns;

use crate::metrics::{reduction_percent_hundredths, spec_reduction_hundredths};
use crate::naming::download_url;
use crate::status::JobStatus;

verus! {

/// The status of one job as surfaced to a client: identity, lifecycle
/// state, the measured sizes, the derived reduction (in hundredths of a
/// percent), the processing time, and where to download the result.
pub struct JobStatusReport {
    pub job_id: String,
    pub status: JobStatus,
    pub original_filename: String,
    pub original_size: u64,
    pub compressed_size: u64,
    pub reduction_hundredths: i128,
    pub processing_time_ms: u64,
    pub download_url: String,
}

/// The report for a compression that just succeeded: status `done`, the
/// measured sizes, the reduction derived from them, and the download URL
/// derived from the stored output name.
pub fn build_success_report(
    job_token: &str,
    original_filename: &str,
    original_size: u64,
    compressed_size: u64,
    processing_time_ms: u64,
    base_url: &str,
    compressed_file: &str,
) -> (r: JobStatusReport)
    ensures
        r.job_id@ == job_token@,
        r.status == JobStatus::Done,
        r.original_filename@ == original_filename@,
        r.original_size == original_size,
        r.compressed_size == compressed_size,
        r.reduction_hundredths == spec_reduction_hundredths(original_size, compressed_size),
        r.processing_time_ms == processing_time_ms,
        r.download_url@ == base_url@ + "/download/"@ + compressed_file@,
{
    JobStatusReport {
        job_id: String::from_str(job_token),
        status: JobStatus::Done,
        original_filename: String::from_str(original_filename),
        original_size,
        compressed_size,
        reduction_hundredths: reduction_percent_hundredths(original_size, compressed_size),
        processing_time_ms,
        download_url: download_url(base_url, compressed_file),
    }
}

} // verus!
