//! Job/batch orchestration engine for a scanned-document conversion service.
//!
//! The crate models units of conversion work (jobs), the registries that own
//! them, batch grouping with aggregate progress, admission control, durable
//! recovery, coordinated shutdown and progress fan-out.  All state-machine
//! logic is verified; calls into outside crates stand behind a few trusted
//! wrappers.

pub mod batch;
pub mod broadcast;
pub mod config;
pub mod detect;
pub mod error;
pub mod job;
pub mod margins;
pub mod parallel;
pub mod persistence;
pub mod queue;
pub mod rate_limit;
pub mod shutdown;
pub mod store;
pub mod worker;

use vstd::prelude::*;

verus! {

/// Default server port.
pub const DEFAULT_PORT: u16 = 8080;

/// Default bind address.
pub const DEFAULT_BIND: &'static str = "127.0.0.1";

/// Default upload limit in bytes (500 MB).
pub const DEFAULT_UPLOAD_LIMIT: usize = 500 * 1024 * 1024;

/// Default job timeout in seconds (1 hour).
pub const DEFAULT_JOB_TIMEOUT: u64 = 3600;

} // verus!
