//! Service configuration, passed explicitly at startup.
//!
//! Every process of the service — front end, workers, supervisor — shares
//! these settings.  Carrying them as a value instead of compiled-in
//! constants lets tests run against isolated directories and ports.

use vstd::prelude::*;
use vstd::string::StringExecFns;

verus! {

/// Settings shared by the front end, the workers and the supervisor.
pub struct Config {
    /// Address the HTTP front end listens on.
    pub listen_addr: String,
    /// Base of the download URLs handed to clients.
    pub base_url: String,
    /// Directory uploaded input files are written to.
    pub upload_dir: String,
    /// Directory the workers write compressed output files to.
    pub compressed_dir: String,
    /// Path of the file backing the job store.
    pub db_path: String,
    /// Number of worker processes the supervisor keeps alive.
    pub worker_count: usize,
    /// How long an idle worker sleeps between polls, in milliseconds.
    pub poll_interval_ms: u64,
    /// How long a worker backs off after a failed poll, in milliseconds.
    pub poll_error_backoff_ms: u64,
    /// How often the supervisor checks its workers, in milliseconds.
    pub supervise_interval_ms: u64,
}

impl Default for Config {
    /// The stock deployment: port 3000 on all interfaces, data kept under
    /// `data/`, four workers, quarter-second polls, two-second
    /// supervision rounds.
    fn default() -> (c: Config)
        ensures
            c.listen_addr@ == "0.0.0.0:3000"@,
            c.base_url@ == "http://localhost:3000"@,
            c.upload_dir@ == "data/uploads"@,
            c.compressed_dir@ == "data/compressed"@,
            c.db_path@ == "data/jobs.db"@,
            c.worker_count == 4,
            c.poll_interval_ms == 250,
            c.poll_error_backoff_ms == 1000,
            c.supervise_interval_ms == 2000,
    {
        Config {
            listen_addr: String::from_str("0.0.0.0:3000"),
            base_url: String::from_str("http://localhost:3000"),
            upload_dir: String::from_str("data/uploads"),
            compressed_dir: String::from_str("data/compressed"),
            db_path: String::from_str("data/jobs.db"),
            worker_count: 4,
            poll_interval_ms: 250,
            poll_error_backoff_ms: 1000,
            supervise_interval_ms: 2000,
        }
    }
}

} // verus!
