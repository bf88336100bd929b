//! The worker pool's verified core: the bounded work intake and the
//! per-stage decisions of an executor.
//!
//! Executors themselves run in the embedding process — they block on the
//! intake, sleep and invoke the external conversion pipeline — and call
//! back in here for every decision: admitting a work item, checking for
//! cooperative cancellation before a stage, recording stage progress and
//! finalising the job.  Each job id is placed on the intake exactly once
//! by the submission path, so exactly one executor ever processes it.

use vstd::prelude::*;

use crate::error::EngineError;
use crate::job::update_progress_spec;
use crate::job::Job;
use crate::job::JobMutation;
use crate::job::JobStatus;
use crate::job::Progress;
use crate::queue::has_job;
use crate::queue::job_index;
use crate::queue::job_of;
use crate::queue::JobQueue;

verus! {

/// Stages of the conversion pipeline, as reported in progress updates.
pub const STAGE_COUNT: u32 = 12;

/// What an executor receives from the intake.
#[derive(Debug)]
pub enum WorkerMessage {
    /// Process a job with the given id and input location.
    Process { job_id: u128, input_path: String },
    /// Stop the executor.
    Shutdown,
}

/// The name of each pipeline stage.
pub open spec fn stage_name_spec(i: int) -> Seq<char> {
    if i == 0 {
        "PDF Reading"@
    } else if i == 1 {
        "Image Extraction"@
    } else if i == 2 {
        "Deskew Detection"@
    } else if i == 3 {
        "Margin Trimming"@
    } else if i == 4 {
        "AI Upscaling"@
    } else if i == 5 {
        "Normalization"@
    } else if i == 6 {
        "Color Correction"@
    } else if i == 7 {
        "Group Crop"@
    } else if i == 8 {
        "Page Offset"@
    } else if i == 9 {
        "Finalize"@
    } else if i == 10 {
        "PDF Generation"@
    } else {
        "Complete"@
    }
}

/// The name of one pipeline stage.
pub fn stage_name(i: u32) -> (s: &'static str)
    requires
        i < STAGE_COUNT,
    ensures
        s@ == stage_name_spec(i as int),
{
    match i {
        0 => "PDF Reading",
        1 => "Image Extraction",
        2 => "Deskew Detection",
        3 => "Margin Trimming",
        4 => "AI Upscaling",
        5 => "Normalization",
        6 => "Color Correction",
        7 => "Group Crop",
        8 => "Page Offset",
        9 => "Finalize",
        10 => "PDF Generation",
        _ => "Complete",
    }
}

/// The bounded intake feeding work items to the executors.  Admission when
/// full is explicit backpressure — the caller is refused and may wait and
/// retry — never unbounded growth.
#[derive(Debug)]
pub struct WorkIntake {
    items: Vec<WorkerMessage>,
    capacity: usize,
}

impl View for WorkIntake {
    type V = Seq<WorkerMessage>;

    closed spec fn view(&self) -> Seq<WorkerMessage> {
        self.items@
    }
}

impl WorkIntake {
    /// The fixed bound on queued work items.
    pub closed spec fn spec_capacity(&self) -> nat {
        self.capacity as nat
    }

    /// The intake never exceeds its bound.
    pub open spec fn wf(self) -> bool {
        self@.len() <= self.spec_capacity()
    }

    /// An empty intake with the given bound.
    pub fn new(capacity: usize) -> (q: WorkIntake)
        ensures
            q@ == Seq::<WorkerMessage>::empty(),
            q.spec_capacity() == capacity,
            q.wf(),
    {
        let q = WorkIntake { items: Vec::new(), capacity };
        proof {
            assert(q@ =~= Seq::<WorkerMessage>::empty());
        }
        q
    }

    /// The fixed bound on queued work items.
    pub fn capacity(&self) -> (c: usize)
        ensures
            c == self.spec_capacity(),
    {
        self.capacity
    }

    /// How many work items are queued.
    pub fn len(&self) -> (n: usize)
        ensures
            n == self@.len(),
    {
        self.items.len()
    }

    /// Admit one work item, or refuse it when the intake is full.
    pub fn push(&mut self, message: WorkerMessage) -> (r: Result<(), EngineError>)
        requires
            old(self).wf(),
        ensures
            final(self).wf(),
            final(self).spec_capacity() == old(self).spec_capacity(),
            r.is_ok() == (old(self)@.len() < old(self).spec_capacity()),
            r.is_ok() ==> final(self)@ == old(self)@.push(message),
            r.is_err() ==> final(self)@ == old(self)@ && (r matches Err(
                EngineError::CapacityExceeded,
            )),
    {
        if self.items.len() < self.capacity {
            self.items.push(message);
            Ok(())
        } else {
            Err(EngineError::CapacityExceeded)
        }
    }

    /// Take the oldest queued work item, if any.
    pub fn pop(&mut self) -> (r: Option<WorkerMessage>)
        requires
            old(self).wf(),
        ensures
            final(self).wf(),
            final(self).spec_capacity() == old(self).spec_capacity(),
            r.is_some() == (old(self)@.len() > 0),
            r matches Some(m) ==> m == old(self)@[0] && final(self)@ == old(self)@.skip(1),
            r.is_none() ==> final(self)@ == old(self)@,
    {
        if self.items.len() == 0 {
            None
        } else {
            let m = self.items.remove(0);
            proof {
                assert(self@ =~= old(self)@.skip(1));
            }
            Some(m)
        }
    }
}

/// What an executor decides before dispatching one pipeline stage.
#[derive(Clone, Copy, Debug, PartialEq, Eq, Structural)]
pub enum StageDecision {
    /// Record progress and run the stage.
    Proceed,
    /// The job was cancelled externally: stop without further stages.
    Abort,
    /// The job id is unknown: nothing to do.
    Gone,
}

/// Mark a job started and record the initial progress snapshot, as an
/// executor does when it picks the job up.  Returns whether the job was
/// found and newly started.
pub fn begin_job(jobs: &mut JobQueue, job_id: u128, now: u64) -> (started: bool)
    requires
        old(jobs).wf(),
    ensures
        final(jobs).wf(),
        started == (has_job(old(jobs)@, job_id) && job_of(old(jobs)@, job_id).status
            == JobStatus::Queued),
        !has_job(old(jobs)@, job_id) ==> final(jobs)@ == old(jobs)@,
        started ==> {
            let i = job_index(old(jobs)@, job_id);
            let j = job_of(old(jobs)@, job_id);
            &&& final(jobs)@.len() == old(jobs)@.len()
            &&& forall|k: int| 0 <= k < old(jobs)@.len() && k != i ==> final(jobs)@[k] == old(
                jobs,
            )@[k]
            &&& final(jobs)@[i].status == JobStatus::Processing
            &&& final(jobs)@[i].started_at == Some(now)
            &&& final(jobs)@[i].id == j.id
            &&& final(jobs)@[i].input_filename == j.input_filename
            &&& final(jobs)@[i].options == j.options
            &&& (final(jobs)@[i].progress matches Some(p) && p.current_step == 1
                && p.total_steps == STAGE_COUNT && p.step_name@ == "Starting"@)
        },
{
    let current = match jobs.get(job_id) {
        Some(j) => j,
        None => {
            return false;
        },
    };
    if !matches!(current.status, JobStatus::Queued) {
        return false;
    }
    let _started = jobs.update(job_id, JobMutation::Start, now);
    let ghost mid = jobs@;
    let ghost i = job_index(old(jobs)@, job_id);
    let progress = Progress::new(1, STAGE_COUNT, "Starting");
    let _updated = jobs.update(job_id, JobMutation::UpdateProgress(progress), now);
    proof {
        crate::queue::lemma_job_index_unique(mid, i, job_id);
    }
    true
}

/// The cooperative cancellation check and progress update an executor runs
/// before dispatching each pipeline stage: a cancelled job is left intact
/// and no further stage runs; otherwise the stage's progress is recorded.
pub fn dispatch_stage(jobs: &mut JobQueue, job_id: u128, stage_index: u32, now: u64) -> (d:
    StageDecision)
    requires
        old(jobs).wf(),
        stage_index < STAGE_COUNT,
    ensures
        final(jobs).wf(),
        d == StageDecision::Gone <==> !has_job(old(jobs)@, job_id),
        d == StageDecision::Abort <==> has_job(old(jobs)@, job_id) && job_of(old(jobs)@,
            job_id).status == JobStatus::Cancelled,
        d != StageDecision::Proceed ==> final(jobs)@ == old(jobs)@,
        d == StageDecision::Proceed ==> {
            let i = job_index(old(jobs)@, job_id);
            let j = job_of(old(jobs)@, job_id);
            &&& final(jobs)@.len() == old(jobs)@.len()
            &&& forall|k: int| 0 <= k < old(jobs)@.len() && k != i ==> final(jobs)@[k] == old(
                jobs,
            )@[k]
            &&& (j.status == JobStatus::Processing ==> final(jobs)@[i]
                == update_progress_spec(j, final(jobs)@[i].progress.unwrap()))
            &&& (j.status == JobStatus::Processing ==> (final(jobs)@[i].progress matches Some(
                p,
            ) && p.current_step == stage_index + 1 && p.total_steps == STAGE_COUNT
                && p.step_name@ == stage_name_spec(stage_index as int) && p.percent == (
            stage_index + 1) as int * 100 / (STAGE_COUNT as int)))
            &&& (j.status != JobStatus::Processing ==> final(jobs)@[i] == j)
        },
{
    let current = match jobs.get(job_id) {
        Some(j) => j,
        None => {
            return StageDecision::Gone;
        },
    };
    if matches!(current.status, JobStatus::Cancelled) {
        return StageDecision::Abort;
    }
    let progress = Progress::new(stage_index + 1, STAGE_COUNT, stage_name(stage_index));
    let _updated = jobs.update(job_id, JobMutation::UpdateProgress(progress), now);
    StageDecision::Proceed
}

/// Record a successful pipeline run: the job completes with its output
/// location.  Returns the post-mutation snapshot, or nothing for an
/// unknown id.
pub fn complete_job(jobs: &mut JobQueue, job_id: u128, output_path: String, now: u64) -> (r:
    Option<Job>)
    requires
        old(jobs).wf(),
    ensures
        final(jobs).wf(),
        r.is_some() == has_job(old(jobs)@, job_id),
        r.is_none() ==> final(jobs)@ == old(jobs)@,
        r matches Some(j) ==> j == crate::job::complete_spec(job_of(old(jobs)@, job_id),
            output_path, now) && final(jobs)@ == old(jobs)@.update(job_index(old(jobs)@,
            job_id), j),
{
    jobs.update(job_id, JobMutation::Complete(output_path), now)
}

/// Record a failed pipeline run: the job fails with the pipeline's error
/// message, and the executor goes on to its next work item — one failing
/// job never halts the pool.
pub fn fail_job(jobs: &mut JobQueue, job_id: u128, message: String, now: u64) -> (r: Option<
    Job>)
    requires
        old(jobs).wf(),
    ensures
        final(jobs).wf(),
        r.is_some() == has_job(old(jobs)@, job_id),
        r.is_none() ==> final(jobs)@ == old(jobs)@,
        r matches Some(j) ==> j == crate::job::fail_spec(job_of(old(jobs)@, job_id), message,
            now) && final(jobs)@ == old(jobs)@.update(job_index(old(jobs)@, job_id), j),
{
    jobs.update(job_id, JobMutation::Fail(message), now)
}

} // verus!
