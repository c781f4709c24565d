//! Durable job queue for asynchronous document compression.
//!
//! The crate models the core of a compression service: a job store with
//! well-defined state transitions and FIFO claiming, the worker protocol
//! that claims, executes and finalizes jobs, and the supervisor that keeps
//! a fixed pool of workers alive.  The surrounding process plumbing (HTTP
//! front end, SQLite persistence, process spawning) lives outside the
//! verified library and drives it with plain values.

pub mod api;
pub mod compressor;
pub mod config;
pub mod job;
pub mod logs;
pub mod metrics;
pub mod naming;
pub mod protocol;
pub mod status;
pub mod supervisor;
pub mod store;
pub mod worker;
