use compress_queue::api::build_success_report;
use compress_queue::config::Config;
use compress_queue::job::Job;
use compress_queue::logs::WorkerLogs;
use compress_queue::status::JobStatus;
use compress_queue::worker::{plan_execution, ExecutionDecision};

#[test]
fn success_report_fields() {
    let r = build_success_report(
        "0f8b",
        "scan.pdf",
        10_000_000,
        3_000_000,
        850,
        "http://localhost:3000",
        "compressed-0f8b-scan.pdf",
    );
    assert_eq!(r.job_id, "0f8b");
    assert_eq!(r.status, JobStatus::Done);
    assert_eq!(r.original_filename, "scan.pdf");
    assert_eq!(r.original_size, 10_000_000);
    assert_eq!(r.compressed_size, 3_000_000);
    assert_eq!(r.reduction_hundredths, 7000);
    assert_eq!(r.processing_time_ms, 850);
    assert_eq!(
        r.download_url,
        "http://localhost:3000/download/compressed-0f8b-scan.pdf"
    );
}

#[test]
fn execution_plan_for_claimed_job() {
    let job = Job {
        id: 12,
        original_filename: "report.pdf".to_string(),
        original_path: "data/uploads/x-report.pdf".to_string(),
        compressed_path: None,
        status: JobStatus::Processing,
        original_size: 0,
        compressed_size: 0,
        processing_time_ms: 0,
        created_at: 5,
    };
    match plan_execution(&job, "data/compressed", true) {
        ExecutionDecision::Run {
            input_path,
            output_path,
        } => {
            assert_eq!(input_path, "data/uploads/x-report.pdf");
            assert_eq!(output_path, "data/compressed/12_report.pdf");
        }
        ExecutionDecision::MissingInput => panic!("input exists"),
    }
    assert!(matches!(
        plan_execution(&job, "data/compressed", false),
        ExecutionDecision::MissingInput
    ));
}

#[test]
fn worker_logs_append() {
    let mut logs = WorkerLogs::new();
    logs.add_log(3, "claimed");
    logs.add_log(3, "done");
    assert_eq!(logs.entries.len(), 2);
    assert_eq!(logs.entries[0].job_id, 3);
    assert_eq!(logs.entries[0].message, "claimed");
    assert_eq!(logs.entries[1].message, "done");
}

#[test]
fn stock_configuration() {
    let c = Config::default();
    assert_eq!(c.listen_addr, "0.0.0.0:3000");
    assert_eq!(c.base_url, "http://localhost:3000");
    assert_eq!(c.upload_dir, "data/uploads");
    assert_eq!(c.compressed_dir, "data/compressed");
    assert_eq!(c.db_path, "data/jobs.db");
    assert_eq!(c.worker_count, 4);
    assert_eq!(c.poll_interval_ms, 250);
    assert_eq!(c.poll_error_backoff_ms, 1000);
    assert_eq!(c.supervise_interval_ms, 2000);
}
