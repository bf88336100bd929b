//! Server configuration: the recognised options and their defaults.

use vstd::prelude::*;

use crate::DEFAULT_PORT;
use crate::DEFAULT_UPLOAD_LIMIT;

verus! {

/// Configuration of the service around the engine.
#[derive(Debug)]
pub struct ServerConfig {
    /// TCP port to listen on.
    pub port: u16,
    /// Address to bind.
    pub bind: String,
    /// Upload size limit in bytes.
    pub upload_limit: usize,
    /// Executor parallelism of the worker pool.
    pub worker_count: usize,
    /// Bound of the work intake.
    pub intake_capacity: usize,
    /// Shutdown grace period in milliseconds.
    pub grace_period_ms: u64,
}

impl Default for ServerConfig {
    /// Local loopback on the default port, 500 MB uploads, four
    /// executors, a hundred queued work items, half a minute of grace.
    fn default() -> (c: ServerConfig)
        ensures
            c.port == DEFAULT_PORT,
            c.bind@ == "127.0.0.1"@,
            c.upload_limit == DEFAULT_UPLOAD_LIMIT,
            c.worker_count == 4,
            c.intake_capacity == 100,
            c.grace_period_ms == 30000,
    {
        ServerConfig {
            port: DEFAULT_PORT,
            bind: "127.0.0.1".to_owned(),
            upload_limit: DEFAULT_UPLOAD_LIMIT,
            worker_count: 4,
            intake_capacity: 100,
            grace_period_ms: 30000,
        }
    }
}

impl ServerConfig {
    /// The same configuration on another port.
    pub fn with_port(self, port: u16) -> (c: ServerConfig)
        ensures
            c == (ServerConfig { port, ..self }),
    {
        ServerConfig { port, ..self }
    }

    /// The same configuration on another bind address.
    pub fn with_bind(self, bind: &str) -> (c: ServerConfig)
        ensures
            c.bind@ == bind@,
            c.port == self.port,
            c.upload_limit == self.upload_limit,
            c.worker_count == self.worker_count,
            c.intake_capacity == self.intake_capacity,
            c.grace_period_ms == self.grace_period_ms,
    {
        ServerConfig { bind: bind.to_owned(), ..self }
    }

    /// The same configuration with another upload limit.
    pub fn with_upload_limit(self, upload_limit: usize) -> (c: ServerConfig)
        ensures
            c == (ServerConfig { upload_limit, ..self }),
    {
        ServerConfig { upload_limit, ..self }
    }

    /// The same configuration with another executor count.
    pub fn with_workers(self, worker_count: usize) -> (c: ServerConfig)
        ensures
            c == (ServerConfig { worker_count, ..self }),
    {
        ServerConfig { worker_count, ..self }
    }
}

} // verus!
