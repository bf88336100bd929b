//! A single conversion unit and its lifecycle state machine.
//!
//! A [`Job`] moves along `Queued -> Processing -> {Completed, Failed,
//! Cancelled}`; `Failed` and `Cancelled` are also reachable directly from
//! `Queued`.  Terminal states are sticky: every further transition attempt
//! leaves the job unchanged.

use vstd::prelude::*;

verus! {

/// Lifecycle status of a job.
#[derive(Clone, Copy, Debug, PartialEq, Eq, Structural)]
pub enum JobStatus {
    Queued,
    Processing,
    Completed,
    Failed,
    Cancelled,
}

impl JobStatus {
    /// Whether this status is terminal (no further transitions).
    pub open spec fn is_terminal(self) -> bool {
        self == JobStatus::Completed || self == JobStatus::Failed || self == JobStatus::Cancelled
    }

    /// Executable terminal check.
    pub fn terminal(&self) -> (b: bool)
        ensures
            b == self.is_terminal(),
    {
        match self {
            JobStatus::Completed | JobStatus::Failed | JobStatus::Cancelled => true,
            _ => false,
        }
    }
}

/// The transition relation of the job state machine: staying put is always
/// allowed, `Queued` may move to `Processing`, `Failed` or `Cancelled`, and
/// `Processing` may move to any terminal status.  Nothing moves backward and
/// nothing leaves a terminal status.
pub open spec fn status_step_allowed(from: JobStatus, to: JobStatus) -> bool {
    ||| to == from
    ||| (from == JobStatus::Queued && (to == JobStatus::Processing || to == JobStatus::Failed
        || to == JobStatus::Cancelled))
    ||| (from == JobStatus::Processing && to.is_terminal())
}

/// Stage progress of a processing job.  `percent` is derived:
/// `current_step / total_steps`, scaled to 100 and rounded down.
#[derive(Debug)]
pub struct Progress {
    pub current_step: u32,
    pub total_steps: u32,
    pub step_name: String,
    pub percent: u32,
}

impl Progress {
    /// Internal consistency: at least one step, the current step within
    /// range, and the stored percentage equal to the derived one.
    pub open spec fn wf(self) -> bool {
        &&& self.total_steps >= 1
        &&& self.current_step <= self.total_steps
        &&& self.percent == self.current_step as int * 100 / self.total_steps as int
    }

    /// Build a progress snapshot; the percentage is computed here.
    pub fn new(current_step: u32, total_steps: u32, step_name: &str) -> (p: Progress)
        requires
            total_steps >= 1,
            current_step <= total_steps,
        ensures
            p.current_step == current_step,
            p.total_steps == total_steps,
            p.step_name@ == step_name@,
            p.percent == current_step as int * 100 / total_steps as int,
            p.wf(),
    {
        let pct: u64 = (current_step as u64) * 100 / (total_steps as u64);
        proof {
            assert(current_step as int * 100 / total_steps as int <= 100) by (nonlinear_arith)
                requires
                    current_step <= total_steps,
                    total_steps >= 1,
            ;
        }
        Progress {
            current_step,
            total_steps,
            step_name: step_name.to_owned(),
            percent: pct as u32,
        }
    }
}

impl Clone for Progress {
    /// An exact copy.
    fn clone(&self) -> (res: Self)
        ensures
            res == *self,
    {
        Progress {
            current_step: self.current_step,
            total_steps: self.total_steps,
            step_name: self.step_name.clone(),
            percent: self.percent,
        }
    }
}

/// Conversion options shared by a job or a batch: an opaque parameter bag
/// for the external conversion pipeline.
#[derive(Clone, Copy, Debug, PartialEq, Eq, Structural)]
pub struct ConvertOptions {
    pub dpi: u32,
    pub deskew: bool,
    pub upscale: bool,
    pub ocr: bool,
    pub advanced: bool,
}

impl Default for ConvertOptions {
    /// 300 dpi, deskew and upscale on, OCR and advanced mode off.
    fn default() -> (o: ConvertOptions)
        ensures
            o.dpi == 300,
            o.deskew,
            o.upscale,
            !o.ocr,
            !o.advanced,
    {
        ConvertOptions { dpi: 300, deskew: true, upscale: true, ocr: false, advanced: false }
    }
}

/// A single conversion unit.
#[derive(Debug)]
pub struct Job {
    /// Unique 128-bit identifier.
    pub id: u128,
    /// Name of the uploaded input file.
    pub input_filename: String,
    /// Conversion options for the pipeline.
    pub options: ConvertOptions,
    /// Lifecycle status.
    pub status: JobStatus,
    /// Last reported stage progress, while processing.
    pub progress: Option<Progress>,
    /// Submission timestamp, milliseconds.
    pub created_at: u64,
    /// Set when processing begins.
    pub started_at: Option<u64>,
    /// Set when a terminal status is reached.
    pub completed_at: Option<u64>,
    /// Output location, set on completion.
    pub output_path: Option<String>,
    /// Failure or cancellation reason, when one was recorded.
    pub error: Option<String>,
    /// Id of the job this one retries, for lineage.
    pub retry_of: Option<u128>,
}

impl Job {
    /// The timestamp/status invariant of the data model: `started_at` is set
    /// when processing has begun, `completed_at` exactly on terminal states,
    /// a completed job has an output and a failed one an error.
    pub open spec fn wf(self) -> bool {
        &&& (self.status == JobStatus::Queued ==> self.started_at.is_none()
            && self.completed_at.is_none())
        &&& (self.status == JobStatus::Processing ==> self.started_at.is_some()
            && self.completed_at.is_none())
        &&& (self.status.is_terminal() ==> self.completed_at.is_some())
        &&& (self.status == JobStatus::Completed ==> self.started_at.is_some()
            && self.output_path.is_some())
        &&& (self.status == JobStatus::Failed ==> self.error.is_some())
        &&& (self.progress matches Some(p) ==> p.wf())
    }

    /// Build a freshly queued job from explicit id and creation time.
    pub fn new(id: u128, input_filename: String, options: ConvertOptions, created_at: u64) -> (
        j: Job)
        ensures
            j == (Job {
                id,
                input_filename,
                options,
                status: JobStatus::Queued,
                progress: None::<Progress>,
                created_at,
                started_at: None::<u64>,
                completed_at: None::<u64>,
                output_path: None::<String>,
                error: None::<String>,
                retry_of: None::<u128>,
            }),
            j.wf(),
    {
        Job {
            id,
            input_filename,
            options,
            status: JobStatus::Queued,
            progress: None,
            created_at,
            started_at: None,
            completed_at: None,
            output_path: None,
            error: None,
            retry_of: None,
        }
    }

    /// Build a freshly queued job with a random id.
    pub fn create(input_filename: &str, options: ConvertOptions, now: u64) -> (j: Job)
        ensures
            j.input_filename@ == input_filename@,
            j.options == options,
            j.status == JobStatus::Queued,
            j.progress.is_none(),
            j.created_at == now,
            j.started_at.is_none(),
            j.completed_at.is_none(),
            j.output_path.is_none(),
            j.error.is_none(),
            j.retry_of.is_none(),
            j.wf(),
    {
        Job::new(fresh_id(), input_filename.to_owned(), options, now)
    }

    /// Begin processing: valid only from `Queued`; stamps `started_at` if it
    /// was unset; a no-op on any other status.
    pub fn start(&mut self, now: u64) -> (changed: bool)
        ensures
            *final(self) == start_spec(*old(self), now),
            changed == (old(self).status == JobStatus::Queued),
            old(self).wf() ==> final(self).wf(),
            status_step_allowed(old(self).status, final(self).status),
            old(self).status.is_terminal() ==> *final(self) == *old(self),
    {
        if matches!(self.status, JobStatus::Queued) {
            self.status = JobStatus::Processing;
            if self.started_at.is_none() {
                self.started_at = Some(now);
            }
            true
        } else {
            false
        }
    }

    /// Replace the progress snapshot: valid only while `Processing`; a stale
    /// update on any other status is ignored.
    pub fn update_progress(&mut self, progress: Progress) -> (changed: bool)
        ensures
            *final(self) == update_progress_spec(*old(self), progress),
            changed == (old(self).status == JobStatus::Processing),
            old(self).wf() && progress.wf() ==> final(self).wf(),
            status_step_allowed(old(self).status, final(self).status),
            old(self).status.is_terminal() ==> *final(self) == *old(self),
    {
        if matches!(self.status, JobStatus::Processing) {
            self.progress = Some(progress);
            true
        } else {
            false
        }
    }

    /// Finish successfully: valid only from `Processing`; stamps
    /// `completed_at` and stores the output location.
    pub fn complete(&mut self, output_path: String, now: u64) -> (changed: bool)
        ensures
            *final(self) == complete_spec(*old(self), output_path, now),
            changed == (old(self).status == JobStatus::Processing),
            old(self).wf() ==> final(self).wf(),
            status_step_allowed(old(self).status, final(self).status),
            old(self).status.is_terminal() ==> *final(self) == *old(self),
    {
        if matches!(self.status, JobStatus::Processing) {
            self.status = JobStatus::Completed;
            self.completed_at = Some(now);
            self.output_path = Some(output_path);
            true
        } else {
            false
        }
    }

    /// Record a failure: valid from `Queued` or `Processing`; stamps
    /// `completed_at` and stores the error message.
    pub fn fail(&mut self, message: String, now: u64) -> (changed: bool)
        ensures
            *final(self) == fail_spec(*old(self), message, now),
            changed == (old(self).status == JobStatus::Queued || old(self).status
                == JobStatus::Processing),
            old(self).wf() ==> final(self).wf(),
            status_step_allowed(old(self).status, final(self).status),
            old(self).status.is_terminal() ==> *final(self) == *old(self),
    {
        if matches!(self.status, JobStatus::Queued | JobStatus::Processing) {
            self.status = JobStatus::Failed;
            self.completed_at = Some(now);
            self.error = Some(message);
            true
        } else {
            false
        }
    }

    /// Cancel: valid from `Queued` or `Processing`; stamps `completed_at`.
    /// Returns `false`, with no side effect, when already terminal.
    pub fn cancel(&mut self, now: u64) -> (changed: bool)
        ensures
            *final(self) == cancel_spec(*old(self), now),
            changed == (old(self).status == JobStatus::Queued || old(self).status
                == JobStatus::Processing),
            old(self).wf() ==> final(self).wf(),
            status_step_allowed(old(self).status, final(self).status),
            old(self).status.is_terminal() ==> *final(self) == *old(self),
    {
        if matches!(self.status, JobStatus::Queued | JobStatus::Processing) {
            self.status = JobStatus::Cancelled;
            self.completed_at = Some(now);
            true
        } else {
            false
        }
    }

    /// Cancel and record a reason, as coordinated shutdown does.
    pub fn cancel_with_reason(&mut self, reason: String, now: u64) -> (changed: bool)
        ensures
            *final(self) == cancel_with_reason_spec(*old(self), reason, now),
            changed == (old(self).status == JobStatus::Queued || old(self).status
                == JobStatus::Processing),
            old(self).wf() ==> final(self).wf(),
            status_step_allowed(old(self).status, final(self).status),
            old(self).status.is_terminal() ==> *final(self) == *old(self),
    {
        if matches!(self.status, JobStatus::Queued | JobStatus::Processing) {
            self.status = JobStatus::Cancelled;
            self.completed_at = Some(now);
            self.error = Some(reason);
            true
        } else {
            false
        }
    }

    /// Apply one named mutation, the closed set through which registries
    /// mutate jobs.
    pub fn apply(&mut self, mutation: JobMutation, now: u64) -> (changed: bool)
        ensures
            *final(self) == apply_spec(*old(self), mutation, now),
            changed == mutation_changes(*old(self), mutation),
            old(self).wf() && mutation_wf(mutation) ==> final(self).wf(),
            status_step_allowed(old(self).status, final(self).status),
            old(self).status.is_terminal() ==> *final(self) == *old(self),
    {
        match mutation {
            JobMutation::Start => self.start(now),
            JobMutation::UpdateProgress(p) => self.update_progress(p),
            JobMutation::Complete(output) => self.complete(output, now),
            JobMutation::Fail(message) => self.fail(message, now),
            JobMutation::Cancel => self.cancel(now),
            JobMutation::CancelWithReason(reason) => self.cancel_with_reason(reason, now),
        }
    }
}

impl Clone for Job {
    /// A snapshot copy; callers never receive a live handle.
    fn clone(&self) -> (res: Self)
        ensures
            res == *self,
    {
        let res = Job {
            id: self.id,
            input_filename: self.input_filename.clone(),
            options: self.options,
            status: self.status,
            progress: self.progress.clone(),
            created_at: self.created_at,
            started_at: self.started_at,
            completed_at: self.completed_at,
            output_path: self.output_path.clone(),
            error: self.error.clone(),
            retry_of: self.retry_of,
        };
        proof {
            assert(res.progress == self.progress);
            assert(res.output_path == self.output_path);
            assert(res.error == self.error);
        }
        res
    }
}

/// The closed set of named mutation operations on a job.
#[derive(Debug)]
pub enum JobMutation {
    Start,
    UpdateProgress(Progress),
    Complete(String),
    Fail(String),
    Cancel,
    CancelWithReason(String),
}

/// A mutation that carries a progress snapshot carries a consistent one.
pub open spec fn mutation_wf(m: JobMutation) -> bool {
    m matches JobMutation::UpdateProgress(p) ==> p.wf()
}

/// What `start` does, as a value-level function.
pub open spec fn start_spec(j: Job, now: u64) -> Job {
    if j.status == JobStatus::Queued {
        Job {
            status: JobStatus::Processing,
            started_at: if j.started_at.is_some() {
                j.started_at
            } else {
                Some(now)
            },
            ..j
        }
    } else {
        j
    }
}

/// What `update_progress` does.
pub open spec fn update_progress_spec(j: Job, p: Progress) -> Job {
    if j.status == JobStatus::Processing {
        Job { progress: Some(p), ..j }
    } else {
        j
    }
}

/// What `complete` does.
pub open spec fn complete_spec(j: Job, output_path: String, now: u64) -> Job {
    if j.status == JobStatus::Processing {
        Job {
            status: JobStatus::Completed,
            completed_at: Some(now),
            output_path: Some(output_path),
            ..j
        }
    } else {
        j
    }
}

/// What `fail` does.
pub open spec fn fail_spec(j: Job, message: String, now: u64) -> Job {
    if j.status == JobStatus::Queued || j.status == JobStatus::Processing {
        Job { status: JobStatus::Failed, completed_at: Some(now), error: Some(message), ..j }
    } else {
        j
    }
}

/// What `cancel` does.
pub open spec fn cancel_spec(j: Job, now: u64) -> Job {
    if j.status == JobStatus::Queued || j.status == JobStatus::Processing {
        Job { status: JobStatus::Cancelled, completed_at: Some(now), ..j }
    } else {
        j
    }
}

/// What `cancel_with_reason` does.
pub open spec fn cancel_with_reason_spec(j: Job, reason: String, now: u64) -> Job {
    if j.status == JobStatus::Queued || j.status == JobStatus::Processing {
        Job {
            status: JobStatus::Cancelled,
            completed_at: Some(now),
            error: Some(reason),
            ..j
        }
    } else {
        j
    }
}

/// What `apply` does for each named mutation.
pub open spec fn apply_spec(j: Job, m: JobMutation, now: u64) -> Job {
    match m {
        JobMutation::Start => start_spec(j, now),
        JobMutation::UpdateProgress(p) => update_progress_spec(j, p),
        JobMutation::Complete(output) => complete_spec(j, output, now),
        JobMutation::Fail(message) => fail_spec(j, message, now),
        JobMutation::Cancel => cancel_spec(j, now),
        JobMutation::CancelWithReason(reason) => cancel_with_reason_spec(j, reason, now),
    }
}

/// Whether a mutation takes effect on a job in the given state.
pub open spec fn mutation_changes(j: Job, m: JobMutation) -> bool {
    match m {
        JobMutation::Start => j.status == JobStatus::Queued,
        JobMutation::UpdateProgress(_) => j.status == JobStatus::Processing,
        JobMutation::Complete(_) => j.status == JobStatus::Processing,
        JobMutation::Fail(_) => j.status == JobStatus::Queued || j.status
            == JobStatus::Processing,
        JobMutation::Cancel => j.status == JobStatus::Queued || j.status
            == JobStatus::Processing,
        JobMutation::CancelWithReason(_) => j.status == JobStatus::Queued || j.status
            == JobStatus::Processing,
    }
}

/// Status transitions follow only the state machine: `Queued` to
/// `Processing`, `Processing` to a terminal status, `Queued` directly to
/// `Failed` or `Cancelled`, never backward; a job in a terminal status
/// rejects every mutation without side effect.
pub proof fn lemma_transitions_follow_state_machine(j: Job, m: JobMutation, now: u64)
    ensures
        status_step_allowed(j.status, apply_spec(j, m, now).status),
        j.status.is_terminal() ==> apply_spec(j, m, now) == j,
{
}

/// Relies on `uuid::Uuid::new_v4` for a 128-bit random identifier; the
/// result depends on the generator, so nothing is promised of it.
#[verifier::external_body]
pub(crate) fn fresh_id() -> u128 {
    uuid::Uuid::new_v4().as_u128()
}

} // verus!
