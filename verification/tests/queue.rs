use compress_queue::status::JobStatus;
use compress_queue::store::JobStore;

#[test]
fn create_assigns_increasing_ids() {
    let mut s = JobStore::new();
    assert_eq!(s.create_job("a.pdf", "data/uploads/a.pdf", 10), 1);
    assert_eq!(s.create_job("b.pdf", "data/uploads/b.pdf", 11), 2);
    assert_eq!(s.create_job("c.pdf", "data/uploads/c.pdf", 12), 3);
    let j = s.get_job_by_id(2).expect("job 2 exists");
    assert_eq!(j.id, 2);
    assert_eq!(j.original_filename, "b.pdf");
    assert_eq!(j.original_path, "data/uploads/b.pdf");
    assert_eq!(j.status, JobStatus::Pending);
    assert_eq!(j.compressed_path, None);
    assert_eq!(j.original_size, 0);
    assert_eq!(j.compressed_size, 0);
    assert_eq!(j.processing_time_ms, 0);
    assert_eq!(j.created_at, 11);
}

#[test]
fn get_job_by_id_absent() {
    let mut s = JobStore::new();
    s.create_job("a.pdf", "p", 1);
    assert!(s.get_job_by_id(7).is_none());
}

#[test]
fn fetch_next_pending_returns_oldest_without_claiming() {
    let mut s = JobStore::new();
    s.create_job("a.pdf", "pa", 1);
    s.create_job("b.pdf", "pb", 2);
    let j = s.fetch_next_pending_job().expect("pending job");
    assert_eq!(j.id, 1);
    assert_eq!(j.status, JobStatus::Pending);
    // fetching does not claim: the same job is still offered
    let j2 = s.fetch_next_pending_job().expect("pending job");
    assert_eq!(j2.id, 1);
}

#[test]
fn fetch_next_pending_empty() {
    let s = JobStore::new();
    assert!(s.fetch_next_pending_job().is_none());
}

#[test]
fn claim_marks_processing() {
    let mut s = JobStore::new();
    s.create_job("a.pdf", "pa", 1);
    s.create_job("b.pdf", "pb", 2);
    assert_eq!(s.claim_next_pending(), Some(1));
    assert_eq!(s.get_job_by_id(1).unwrap().status, JobStatus::Processing);
    assert_eq!(s.get_job_by_id(2).unwrap().status, JobStatus::Pending);
    assert_eq!(s.claim_next_pending(), Some(2));
    assert_eq!(s.claim_next_pending(), None);
}

#[test]
fn claims_are_fifo_across_creates() {
    // jobs created with strictly increasing timestamps are handed out in
    // creation order, even when new jobs arrive between claims
    let mut s = JobStore::new();
    s.create_job("a.pdf", "pa", 1);
    s.create_job("b.pdf", "pb", 2);
    assert_eq!(s.claim_next_pending(), Some(1));
    s.create_job("c.pdf", "pc", 3);
    assert_eq!(s.claim_next_pending(), Some(2));
    assert_eq!(s.claim_next_pending(), Some(3));
    assert_eq!(s.claim_next_pending(), None);
}

#[test]
fn each_pending_job_claimed_exactly_once() {
    // more claimants than jobs: three pending jobs, five polls; every job
    // is claimed exactly once and the late polls come away empty
    let mut s = JobStore::new();
    for n in 0..3u64 {
        s.create_job("f.pdf", "p", n);
    }
    let outcomes: Vec<Option<u64>> = (0..5).map(|_| s.claim_next_pending()).collect();
    assert_eq!(outcomes, vec![Some(1), Some(2), Some(3), None, None]);
    let claimed: Vec<u64> = outcomes.iter().flatten().copied().collect();
    assert_eq!(claimed.len(), 3);
    for id in 1..=3u64 {
        assert_eq!(claimed.iter().filter(|&&c| c == id).count(), 1);
    }
}

#[test]
fn update_job_status_unconditional() {
    let mut s = JobStore::new();
    s.create_job("a.pdf", "pa", 1);
    assert!(s.update_job_status(1, JobStatus::Done));
    assert_eq!(s.get_job_by_id(1).unwrap().status, JobStatus::Done);
    // overwrite with no validation, exactly as the backing table does
    assert!(s.update_job_status(1, JobStatus::Pending));
    assert_eq!(s.get_job_by_id(1).unwrap().status, JobStatus::Pending);
    assert!(!s.update_job_status(9, JobStatus::Done));
}

#[test]
fn update_compressed_path_and_metrics() {
    let mut s = JobStore::new();
    s.create_job("a.pdf", "pa", 1);
    assert!(s.update_compressed_path(1, "data/compressed/1_a.pdf"));
    assert!(s.update_job_metrics(1, 500, 200, 12));
    let j = s.get_job_by_id(1).unwrap();
    assert_eq!(j.compressed_path.as_deref(), Some("data/compressed/1_a.pdf"));
    assert_eq!(j.original_size, 500);
    assert_eq!(j.compressed_size, 200);
    assert_eq!(j.processing_time_ms, 12);
    assert!(!s.update_compressed_path(9, "x"));
    assert!(!s.update_job_metrics(9, 1, 1, 1));
}

#[test]
fn missing_input_marks_error_without_output() {
    let mut s = JobStore::new();
    s.create_job("gone.pdf", "data/uploads/gone.pdf", 1);
    let id = s.claim_next_pending().expect("claimed");
    s.report_missing_input(id);
    let j = s.get_job_by_id(id).unwrap();
    assert_eq!(j.status, JobStatus::Error);
    assert_eq!(j.compressed_path, None);
    // the failed job is never offered again
    assert_eq!(s.claim_next_pending(), None);
}

#[test]
fn failed_compression_marks_error() {
    let mut s = JobStore::new();
    s.create_job("bad.pdf", "data/uploads/bad.pdf", 1);
    let id = s.claim_next_pending().expect("claimed");
    s.report_failure(id);
    let j = s.get_job_by_id(id).unwrap();
    assert_eq!(j.status, JobStatus::Error);
    assert_eq!(j.compressed_path, None);
}

#[test]
fn metrics_round_trip_after_success() {
    let mut s = JobStore::new();
    s.create_job("doc.pdf", "data/uploads/doc.pdf", 1);
    let id = s.claim_next_pending().expect("claimed");
    s.report_success(id, "data/compressed/1_doc.pdf", 4096, 1024, 250);
    let j = s.get_job_by_id(id).unwrap();
    assert_eq!(j.status, JobStatus::Done);
    assert_eq!(j.compressed_path.as_deref(), Some("data/compressed/1_doc.pdf"));
    assert_eq!(j.original_size, 4096);
    assert_eq!(j.compressed_size, 1024);
    assert_eq!(j.processing_time_ms, 250);
    // identity fields untouched
    assert_eq!(j.original_filename, "doc.pdf");
    assert_eq!(j.original_path, "data/uploads/doc.pdf");
    assert_eq!(j.created_at, 1);
}

#[test]
fn end_to_end_ten_megabytes() {
    let mut s = JobStore::new();
    s.create_job("big.pdf", "data/uploads/big.pdf", 1);
    let id = s.claim_next_pending().expect("claimed");
    s.report_success(id, "data/compressed/1_big.pdf", 10_000_000, 3_000_000, 900);
    let j = s.get_job_by_id(id).unwrap();
    assert_eq!(j.status, JobStatus::Done);
    assert_eq!(j.original_size, 10_000_000);
    assert_eq!(j.compressed_size, 3_000_000);
    let reduction =
        compress_queue::metrics::reduction_percent_hundredths(j.original_size, j.compressed_size);
    assert_eq!(reduction, 7000);
    assert_eq!(reduction as f64 / 100.0, 70.0);
}

#[test]
fn status_strings() {
    assert_eq!(JobStatus::Pending.as_str(), "pending");
    assert_eq!(JobStatus::Processing.as_str(), "processing");
    assert_eq!(JobStatus::Done.as_str(), "done");
    assert_eq!(JobStatus::Error.as_str(), "error");
}
