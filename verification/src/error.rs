//! Error taxonomy of the orchestration engine.

use vstd::prelude::*;

verus! {

/// Every failure the engine reports to a caller.
#[derive(Debug)]
pub enum EngineError {
    /// Unknown job or batch id.
    NotFound,
    /// The operation is not valid for the current status.
    InvalidState,
    /// A submitted id already exists in the registry.
    DuplicateId,
    /// Malformed options or an empty batch submission.
    ValidationError,
    /// The work intake is full under the reject policy.
    CapacityExceeded,
    /// Admission denied; carries the computed retry-after interval.
    RateLimited { retry_after_ms: u64 },
    /// Persistence read or write failure.
    StoreError(String),
    /// A conversion stage failed; the message is captured into the job.
    PipelineError(String),
}

impl Clone for EngineError {
    /// An exact copy.
    fn clone(&self) -> (res: Self)
        ensures
            res == *self,
    {
        match self {
            EngineError::NotFound => EngineError::NotFound,
            EngineError::InvalidState => EngineError::InvalidState,
            EngineError::DuplicateId => EngineError::DuplicateId,
            EngineError::ValidationError => EngineError::ValidationError,
            EngineError::CapacityExceeded => EngineError::CapacityExceeded,
            EngineError::RateLimited { retry_after_ms } => EngineError::RateLimited {
                retry_after_ms: *retry_after_ms,
            },
            EngineError::StoreError(m) => EngineError::StoreError(m.clone()),
            EngineError::PipelineError(m) => EngineError::PipelineError(m.clone()),
        }
    }
}

} // verus!
