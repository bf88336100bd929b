//! Priority-ordered groups of jobs and their aggregate progress.
//!
//! A batch holds a non-owning, ordered list of job ids; all job-level state
//! lives in the job registry and is re-read on every aggregate query, so a
//! batch progress read is an eventually-consistent snapshot.

use vstd::prelude::*;

use crate::error::EngineError;
use crate::job::cancel_spec;
use crate::job::ConvertOptions;
use crate::job::fresh_id;
use crate::job::Job;
use crate::job::JobStatus;
use crate::job::Progress;
use crate::queue::has_job;
use crate::queue::job_index;
use crate::queue::job_of;
use crate::queue::JobQueue;

verus! {

/// Scheduling weight of a batch, ordered `Low < Normal < High`.
#[derive(Clone, Copy, Debug, PartialEq, Eq, Structural)]
pub enum Priority {
    Low,
    Normal,
    High,
}

impl Priority {
    /// Numeric weight realising the order `Low < Normal < High`.
    pub fn value(&self) -> (v: u8)
        ensures
            v == match *self {
                Priority::Low => 0u8,
                Priority::Normal => 1u8,
                Priority::High => 2u8,
            },
    {
        match self {
            Priority::Low => 0,
            Priority::Normal => 1,
            Priority::High => 2,
        }
    }
}

impl Default for Priority {
    /// `Normal` unless a submission says otherwise.
    fn default() -> (p: Priority)
        ensures
            p == Priority::Normal,
    {
        Priority::Normal
    }
}

/// Lifecycle status of a batch.
#[derive(Clone, Copy, Debug, PartialEq, Eq, Structural)]
pub enum BatchStatus {
    Queued,
    Processing,
    Completed,
    Failed,
    Cancelled,
}

/// A priority-ordered group of jobs submitted and tracked together.
#[derive(Debug)]
pub struct BatchJob {
    /// Unique 128-bit identifier.
    pub id: u128,
    /// Conversion options shared by every constituent job.
    pub options: ConvertOptions,
    /// Scheduling weight.
    pub priority: Priority,
    /// Lifecycle status.
    pub status: BatchStatus,
    /// Constituent job ids, in submission order, index-aligned with the
    /// input filenames.
    pub job_ids: Vec<u128>,
    /// Submission timestamp, milliseconds.
    pub created_at: u64,
    /// Set when the batch starts processing.
    pub started_at: Option<u64>,
}

/// The mathematical value of a batch record: the id list as a sequence.
#[verifier::ext_equal]
pub ghost struct BatchView {
    pub id: u128,
    pub options: ConvertOptions,
    pub priority: Priority,
    pub status: BatchStatus,
    pub job_ids: Seq<u128>,
    pub created_at: u64,
    pub started_at: Option<u64>,
}

impl View for BatchJob {
    type V = BatchView;

    open spec fn view(&self) -> BatchView {
        BatchView {
            id: self.id,
            options: self.options,
            priority: self.priority,
            status: self.status,
            job_ids: self.job_ids@,
            created_at: self.created_at,
            started_at: self.started_at,
        }
    }
}

/// No id occurs twice.
pub open spec fn all_distinct(ids: Seq<u128>) -> bool {
    forall|i: int, j: int| 0 <= i < j < ids.len() ==> ids[i] != ids[j]
}

impl BatchView {
    /// Batch invariant: constituent ids unique, timestamps match status.
    pub open spec fn wf(self) -> bool {
        &&& all_distinct(self.job_ids)
        &&& (self.status == BatchStatus::Queued ==> self.started_at.is_none())
        &&& (self.status == BatchStatus::Processing ==> self.started_at.is_some())
    }
}

impl BatchJob {
    /// Batch invariant, at the concrete record.
    pub open spec fn wf(self) -> bool {
        self@.wf()
    }

    /// Build a freshly queued batch from an explicit id and creation time.
    pub fn new(id: u128, options: ConvertOptions, priority: Priority, created_at: u64) -> (b:
        BatchJob)
        ensures
            b@ == (BatchView {
                id,
                options,
                priority,
                status: BatchStatus::Queued,
                job_ids: Seq::<u128>::empty(),
                created_at,
                started_at: None::<u64>,
            }),
            b.wf(),
    {
        let b = BatchJob {
            id,
            options,
            priority,
            status: BatchStatus::Queued,
            job_ids: Vec::new(),
            created_at,
            started_at: None,
        };
        proof {
            assert(b@ =~= (BatchView {
                id,
                options,
                priority,
                status: BatchStatus::Queued,
                job_ids: Seq::<u128>::empty(),
                created_at,
                started_at: None::<u64>,
            }));
        }
        b
    }

    /// Build a freshly queued batch with a random id.
    pub fn create(options: ConvertOptions, priority: Priority, now: u64) -> (b: BatchJob)
        ensures
            b@.options == options,
            b@.priority == priority,
            b@.status == BatchStatus::Queued,
            b@.job_ids == Seq::<u128>::empty(),
            b@.created_at == now,
            b@.started_at.is_none(),
            b.wf(),
    {
        BatchJob::new(fresh_id(), options, priority, now)
    }

    /// Number of constituent jobs.
    pub fn job_count(&self) -> (n: usize)
        ensures
            n == self@.job_ids.len(),
    {
        self.job_ids.len()
    }

    /// Begin processing: valid only from `Queued` with at least one job.
    pub fn start(&mut self, now: u64) -> (changed: bool)
        ensures
            changed == (old(self)@.status == BatchStatus::Queued && old(self)@.job_ids.len()
                >= 1),
            changed ==> final(self)@ == (BatchView {
                status: BatchStatus::Processing,
                started_at: Some(now),
                ..old(self)@
            }),
            !changed ==> final(self)@ == old(self)@,
            old(self).wf() ==> final(self).wf(),
    {
        if matches!(self.status, BatchStatus::Queued) && self.job_ids.len() >= 1 {
            self.status = BatchStatus::Processing;
            self.started_at = Some(now);
            true
        } else {
            false
        }
    }
}

impl Clone for BatchJob {
    /// A snapshot copy; callers never receive a live handle.
    fn clone(&self) -> (res: Self)
        ensures
            res@ == self@,
    {
        let mut ids: Vec<u128> = Vec::new();
        let mut i: usize = 0;
        while i < self.job_ids.len()
            invariant
                0 <= i <= self.job_ids.len(),
                ids@ =~= self.job_ids@.take(i as int),
            decreases self.job_ids.len() - i,
        {
            ids.push(self.job_ids[i]);
            i += 1;
        }
        proof {
            assert(ids@ =~= self.job_ids@);
        }
        let res = BatchJob {
            id: self.id,
            options: self.options,
            priority: self.priority,
            status: self.status,
            job_ids: ids,
            created_at: self.created_at,
            started_at: self.started_at,
        };
        proof {
            assert(res@ =~= self@);
        }
        res
    }
}

/// The named mutation operations on a batch record.
#[derive(Clone, Copy, Debug)]
pub enum BatchMutation {
    Start,
    Cancel,
}

/// What a batch mutation does, as a value-level function.
pub open spec fn apply_batch_spec(b: BatchView, m: BatchMutation, now: u64) -> BatchView {
    match m {
        BatchMutation::Start => if b.status == BatchStatus::Queued && b.job_ids.len() >= 1 {
            BatchView { status: BatchStatus::Processing, started_at: Some(now), ..b }
        } else {
            b
        },
        BatchMutation::Cancel => BatchView { status: BatchStatus::Cancelled, ..b },
    }
}

/// Aggregate view of a batch, derived at query time from live job state.
#[derive(Clone, Copy, Debug)]
pub struct BatchProgress {
    pub total: usize,
    pub completed: usize,
    pub failed: usize,
    pub pending: usize,
    pub cancelled: usize,
}

impl BatchProgress {
    /// The counts partition the batch.
    pub open spec fn wf(self) -> bool {
        self.completed + self.failed + self.pending + self.cancelled == self.total
    }

    /// A fresh aggregate for a batch of `total` jobs, all still pending.
    pub fn new(total: usize) -> (p: BatchProgress)
        ensures
            p.total == total,
            p.completed == 0,
            p.failed == 0,
            p.pending == total,
            p.cancelled == 0,
            p.wf(),
    {
        BatchProgress { total, completed: 0, failed: 0, pending: total, cancelled: 0 }
    }

    /// Completion percentage, scaled to 100 and rounded down; an empty
    /// batch reads zero.
    pub fn percent(&self) -> (r: u32)
        requires
            self.completed <= self.total,
        ensures
            self.total == 0 ==> r == 0,
            self.total > 0 ==> r == self.completed as int * 100 / self.total as int,
    {
        if self.total == 0 {
            0
        } else {
            let q: u128 = (self.completed as u128) * 100 / (self.total as u128);
            proof {
                assert(self.completed as int * 100 / self.total as int <= 100)
                    by (nonlinear_arith)
                    requires
                        self.completed <= self.total,
                        self.total > 0,
                ;
            }
            q as u32
        }
    }

    /// A batch is complete exactly when nothing is pending, regardless of
    /// failures or cancellations.
    pub fn is_complete(&self) -> (b: bool)
        ensures
            b == (self.pending == 0),
    {
        self.pending == 0
    }
}

/// The live status a job id resolves to in a registry snapshot, if any.
pub open spec fn job_status_in(s: Seq<Job>, id: u128) -> Option<JobStatus> {
    if has_job(s, id) {
        Some(job_of(s, id).status)
    } else {
        None
    }
}

/// A resolved status that counts as pending: still queued or processing,
/// or not resolvable at all.
pub open spec fn is_pending_status(st: Option<JobStatus>) -> bool {
    match st {
        None => true,
        Some(x) => x == JobStatus::Queued || x == JobStatus::Processing,
    }
}

/// How many of `ids` resolve to `Completed` in `s`.
pub open spec fn count_completed(s: Seq<Job>, ids: Seq<u128>) -> nat
    decreases ids.len(),
{
    if ids.len() == 0 {
        0
    } else {
        count_completed(s, ids.drop_last()) + if job_status_in(s, ids.last()) == Some(
            JobStatus::Completed,
        ) {
            1nat
        } else {
            0nat
        }
    }
}

/// How many of `ids` resolve to `Failed` in `s`.
pub open spec fn count_failed(s: Seq<Job>, ids: Seq<u128>) -> nat
    decreases ids.len(),
{
    if ids.len() == 0 {
        0
    } else {
        count_failed(s, ids.drop_last()) + if job_status_in(s, ids.last()) == Some(
            JobStatus::Failed,
        ) {
            1nat
        } else {
            0nat
        }
    }
}

/// How many of `ids` resolve to `Cancelled` in `s`.
pub open spec fn count_cancelled(s: Seq<Job>, ids: Seq<u128>) -> nat
    decreases ids.len(),
{
    if ids.len() == 0 {
        0
    } else {
        count_cancelled(s, ids.drop_last()) + if job_status_in(s, ids.last()) == Some(
            JobStatus::Cancelled,
        ) {
            1nat
        } else {
            0nat
        }
    }
}

/// How many of `ids` still count as pending in `s`.
pub open spec fn count_pending(s: Seq<Job>, ids: Seq<u128>) -> nat
    decreases ids.len(),
{
    if ids.len() == 0 {
        0
    } else {
        count_pending(s, ids.drop_last()) + if is_pending_status(job_status_in(s, ids.last())) {
            1nat
        } else {
            0nat
        }
    }
}

/// How many of `ids` resolve to a job that is present and not terminal:
/// the jobs a batch cancellation will actually cancel.
pub open spec fn count_cancellable(s: Seq<Job>, ids: Seq<u128>) -> nat
    decreases ids.len(),
{
    if ids.len() == 0 {
        0
    } else {
        count_cancellable(s, ids.drop_last()) + if has_job(s, ids.last()) && !job_of(
            s,
            ids.last(),
        ).status.is_terminal() {
            1nat
        } else {
            0nat
        }
    }
}

/// Every aggregate read partitions the batch: completed, failed, pending
/// and cancelled add up to the total, whatever the registry holds.
pub proof fn lemma_progress_partition(s: Seq<Job>, ids: Seq<u128>)
    ensures
        count_completed(s, ids) + count_failed(s, ids) + count_cancelled(s, ids)
            + count_pending(s, ids) == ids.len(),
    decreases ids.len(),
{
    if ids.len() > 0 {
        lemma_progress_partition(s, ids.drop_last());
    }
}

/// Some batch record in `s` carries this id.
pub open spec fn has_batch(s: Seq<BatchView>, id: u128) -> bool {
    exists|i: int| 0 <= i < s.len() && s[i].id == id
}

/// The index of the batch with this id.
pub open spec fn batch_index(s: Seq<BatchView>, id: u128) -> int {
    choose|i: int| 0 <= i < s.len() && s[i].id == id
}

/// The batch record with this id.
pub open spec fn batch_of(s: Seq<BatchView>, id: u128) -> BatchView {
    s[batch_index(s, id)]
}

/// No two batch records share an id.
pub open spec fn unique_batch_ids(s: Seq<BatchView>) -> bool {
    forall|i: int, j: int| 0 <= i < j < s.len() ==> s[i].id != s[j].id
}

/// Every batch record satisfies the batch invariant.
pub open spec fn all_batches_wf(s: Seq<BatchView>) -> bool {
    forall|i: int| 0 <= i < s.len() ==> #[trigger] s[i].wf()
}

/// How many batch records are `Processing`.
pub open spec fn count_processing(s: Seq<BatchView>) -> nat
    decreases s.len(),
{
    if s.len() == 0 {
        0
    } else {
        count_processing(s.drop_last()) + if s.last().status == BatchStatus::Processing {
            1nat
        } else {
            0nat
        }
    }
}

/// With unique ids, any index holding `id` is the index `batch_index` picks.
pub proof fn lemma_batch_index_unique(s: Seq<BatchView>, i: int, id: u128)
    requires
        unique_batch_ids(s),
        0 <= i < s.len(),
        s[i].id == id,
    ensures
        has_batch(s, id),
        batch_index(s, id) == i,
        batch_of(s, id) == s[i],
{
    assert(has_batch(s, id));
    let k = batch_index(s, id);
    if k < i {
        assert(s[k].id != s[i].id);
    } else if i < k {
        assert(s[i].id != s[k].id);
    }
}

/// The authoritative map from batch id to batch record.  All job-level
/// mutation is delegated to the job registry passed into each operation.
#[derive(Debug)]
pub struct BatchQueue {
    batches: Vec<BatchJob>,
}

impl View for BatchQueue {
    type V = Seq<BatchView>;

    closed spec fn view(&self) -> Seq<BatchView> {
        Seq::new(self.batches@.len(), |i: int| self.batches@[i]@)
    }
}

impl BatchQueue {
    /// Registry invariant: unique ids, well-formed records.
    pub open spec fn wf(self) -> bool {
        unique_batch_ids(self@) && all_batches_wf(self@)
    }

    /// An empty batch registry.
    pub fn new() -> (q: BatchQueue)
        ensures
            q@ == Seq::<BatchView>::empty(),
            q.wf(),
    {
        let q = BatchQueue { batches: Vec::new() };
        proof {
            assert(q@ =~= Seq::<BatchView>::empty());
        }
        q
    }

    /// Number of batch records.
    pub fn len(&self) -> (n: usize)
        ensures
            n == self@.len(),
    {
        self.batches.len()
    }

    /// Whether a batch with this id exists.
    pub fn contains_id(&self, id: u128) -> (b: bool)
        ensures
            b == has_batch(self@, id),
    {
        let mut i: usize = 0;
        while i < self.batches.len()
            invariant
                0 <= i <= self.batches.len(),
                forall|k: int| 0 <= k < i ==> self@[k].id != id,
            decreases self.batches.len() - i,
        {
            if self.batches[i].id == id {
                proof {
                    assert(self@[i as int].id == id);
                }
                return true;
            }
            i += 1;
        }
        false
    }

    /// Register a batch for tracking; refused when the id already exists.
    /// Dispatch of constituent jobs is a separate concern of the
    /// submission path.
    pub fn submit(&mut self, batch: BatchJob) -> (r: Result<(), EngineError>)
        requires
            old(self).wf(),
            batch.wf(),
        ensures
            final(self).wf(),
            r.is_ok() == !has_batch(old(self)@, batch@.id),
            r.is_ok() ==> final(self)@ == old(self)@.push(batch@),
            r.is_err() ==> final(self)@ == old(self)@ && (r matches Err(
                EngineError::DuplicateId,
            )),
    {
        if self.contains_id(batch.id) {
            Err(EngineError::DuplicateId)
        } else {
            let ghost before = self@;
            let ghost bv = batch@;
            self.batches.push(batch);
            proof {
                assert(self@ =~= before.push(bv));
            }
            Ok(())
        }
    }

    /// Immutable snapshot copy of the batch with this id.
    pub fn get(&self, id: u128) -> (r: Option<BatchJob>)
        requires
            self.wf(),
        ensures
            r.is_some() == has_batch(self@, id),
            r matches Some(b) ==> b@ == batch_of(self@, id) && b.wf(),
    {
        let mut i: usize = 0;
        while i < self.batches.len()
            invariant
                self.wf(),
                0 <= i <= self.batches.len(),
                forall|k: int| 0 <= k < i ==> self@[k].id != id,
            decreases self.batches.len() - i,
        {
            if self.batches[i].id == id {
                proof {
                    assert(self@[i as int].id == id);
                    lemma_batch_index_unique(self@, i as int, id);
                }
                return Some(self.batches[i].clone());
            }
            i += 1;
        }
        None
    }

    /// Snapshot of every batch record, in creation order.
    pub fn list(&self) -> (r: Vec<BatchJob>)
        ensures
            r@.len() == self@.len(),
            forall|i: int| 0 <= i < self@.len() ==> (#[trigger] r@[i])@ == self@[i],
    {
        let mut out: Vec<BatchJob> = Vec::new();
        let mut i: usize = 0;
        while i < self.batches.len()
            invariant
                0 <= i <= self.batches.len(),
                out@.len() == i,
                forall|k: int| 0 <= k < i ==> (#[trigger] out@[k])@ == self@[k],
            decreases self.batches.len() - i,
        {
            out.push(self.batches[i].clone());
            i += 1;
        }
        out
    }

    /// Apply one named batch mutation atomically and return the
    /// post-mutation snapshot, or nothing when the id is unknown.
    pub fn update(&mut self, id: u128, mutation: BatchMutation, now: u64) -> (r: Option<
        BatchJob>)
        requires
            old(self).wf(),
        ensures
            final(self).wf(),
            r.is_some() == has_batch(old(self)@, id),
            r.is_none() ==> final(self)@ == old(self)@,
            r matches Some(b) ==> b@ == apply_batch_spec(batch_of(old(self)@, id), mutation,
                now) && final(self)@ == old(self)@.update(batch_index(old(self)@, id), b@),
    {
        let mut i: usize = 0;
        while i < self.batches.len()
            invariant
                old(self) == self,
                self.wf(),
                0 <= i <= self.batches.len(),
                forall|k: int| 0 <= k < i ==> self@[k].id != id,
            decreases self.batches.len() - i,
        {
            if self.batches[i].id == id {
                proof {
                    assert(self@[i as int].id == id);
                    lemma_batch_index_unique(self@, i as int, id);
                }
                let ghost before = self@;
                let current = self.batches[i].clone();
                let updated = match mutation {
                    BatchMutation::Start => {
                        let mut b = current;
                        b.start(now);
                        b
                    },
                    BatchMutation::Cancel => {
                        let mut b = current;
                        b.status = BatchStatus::Cancelled;
                        b
                    },
                };
                let snapshot = updated.clone();
                let ghost uv = updated@;
                self.batches.set(i, updated);
                proof {
                    assert(self@ =~= before.update(i as int, uv));
                    assert(uv =~= apply_batch_spec(before[i as int], mutation, now));
                    assert forall|a: int, b: int| 0 <= a < b < self@.len() implies self@[a].id
                        != self@[b].id by {
                        assert(before[a].id != before[b].id);
                    }
                    assert forall|a: int| 0 <= a < self@.len() implies #[trigger] self@[a].wf()
                        by {
                        assert(before[a].wf());
                    }
                }
                return Some(snapshot);
            }
            i += 1;
        }
        None
    }

    /// Number of batches currently `Processing`.
    pub fn active_count(&self) -> (n: usize)
        ensures
            n == count_processing(self@),
    {
        let mut n: usize = 0;
        let mut i: usize = 0;
        while i < self.batches.len()
            invariant
                0 <= i <= self.batches.len(),
                n == count_processing(self@.take(i as int)),
                n <= i,
            decreases self.batches.len() - i,
        {
            proof {
                assert(self@.take(i + 1).drop_last() =~= self@.take(i as int));
                assert(self@.take(i + 1).last() == self@[i as int]);
                assert(self@[i as int].status == self.batches@[i as int]@.status);
            }
            if matches!(self.batches[i].status, BatchStatus::Processing) {
                n += 1;
            }
            i += 1;
        }
        proof {
            assert(self@.take(self@.len() as int) =~= self@);
        }
        n
    }

    /// For each filename, construct a job with the batch's shared options
    /// under the aligned id from `ids`, submit it into the job registry and
    /// append its id to the batch's ordered list.  Refused as a whole —
    /// nothing inserted — when any id is not fresh and distinct.
    pub fn create_jobs_with_ids(
        &self,
        batch: &mut BatchJob,
        filenames: &Vec<String>,
        ids: &Vec<u128>,
        jobs: &mut JobQueue,
        now: u64,
    ) -> (r: Result<(), EngineError>)
        requires
            old(jobs).wf(),
            old(batch).wf(),
            ids@.len() == filenames@.len(),
        ensures
            final(jobs).wf(),
            final(batch).wf(),
            r.is_ok() == (all_distinct(ids@) && (forall|i: int| 0 <= i < ids@.len()
                ==> !has_job(old(jobs)@, ids@[i])) && (forall|i: int| 0 <= i < ids@.len()
                ==> !old(batch)@.job_ids.contains(ids@[i]))),
            r.is_ok() ==> {
                &&& final(batch)@ == (BatchView {
                    job_ids: old(batch)@.job_ids + ids@,
                    ..old(batch)@
                })
                &&& final(jobs)@.len() == old(jobs)@.len() + ids@.len()
                &&& forall|i: int| 0 <= i < old(jobs)@.len() ==> final(jobs)@[i] == old(jobs)@[i]
                &&& forall|i: int| 0 <= i < ids@.len() ==> final(jobs)@[old(jobs)@.len() + i]
                    == (Job {
                    id: ids@[i],
                    input_filename: filenames@[i],
                    options: old(batch)@.options,
                    status: JobStatus::Queued,
                    progress: None::<Progress>,
                    created_at: now,
                    started_at: None::<u64>,
                    completed_at: None::<u64>,
                    output_path: None::<String>,
                    error: None::<String>,
                    retry_of: None::<u128>,
                })
            },
            r.is_err() ==> final(batch)@ == old(batch)@ && final(jobs)@ == old(jobs)@ && (
            r matches Err(EngineError::DuplicateId)),
    {
        // Validation pass: every id distinct from the others, from the job
        // registry and from the batch's existing list.
        let mut i: usize = 0;
        while i < ids.len()
            invariant
                jobs.wf(),
                batch.wf(),
                old(jobs) == jobs,
                old(batch) == batch,
                0 <= i <= ids@.len(),
                forall|a: int, b: int| 0 <= a < b < i ==> ids@[a] != ids@[b],
                forall|a: int| 0 <= a < i ==> !has_job(jobs@, ids@[a]),
                forall|a: int| 0 <= a < i ==> !batch@.job_ids.contains(ids@[a]),
            decreases ids@.len() - i,
        {
            let mut k: usize = 0;
            while k < i
                invariant
                    jobs.wf(),
                    batch.wf(),
                    old(jobs) == jobs,
                    old(batch) == batch,
                    0 <= k <= i < ids@.len(),
                    forall|a: int| 0 <= a < k ==> ids@[a] != ids@[i as int],
                decreases i - k,
            {
                if ids[k] == ids[i] {
                    return Err(EngineError::DuplicateId);
                }
                k += 1;
            }
            if jobs.contains_id(ids[i]) {
                return Err(EngineError::DuplicateId);
            }
            let mut m: usize = 0;
            while m < batch.job_ids.len()
                invariant
                    jobs.wf(),
                    batch.wf(),
                    old(jobs) == jobs,
                    old(batch) == batch,
                    0 <= m <= batch@.job_ids.len(),
                    0 <= i < ids@.len(),
                    forall|a: int| 0 <= a < m ==> batch@.job_ids[a] != ids@[i as int],
                decreases batch@.job_ids.len() - m,
            {
                if batch.job_ids[m] == ids[i] {
                    return Err(EngineError::DuplicateId);
                }
                m += 1;
            }
            proof {
                if batch@.job_ids.contains(ids@[i as int]) {
                    let w = choose|w: int| 0 <= w < batch@.job_ids.len()
                        && #[trigger] batch@.job_ids[w] == ids@[i as int];
                    assert(false);
                }
            }
            i += 1;
        }

        // Insertion pass: all checks passed, so every submit succeeds.
        let ghost jobs0 = jobs@;
        let ghost batch0 = batch@;
        let mut i: usize = 0;
        while i < ids.len()
            invariant
                jobs.wf(),
                batch.wf(),
                0 <= i <= ids@.len(),
                ids@.len() == filenames@.len(),
                batch0.wf(),
                all_distinct(ids@),
                forall|a: int| 0 <= a < ids@.len() ==> !has_job(jobs0, ids@[a]),
                forall|a: int| 0 <= a < ids@.len() ==> !batch0.job_ids.contains(ids@[a]),
                batch@ == (BatchView {
                    job_ids: batch0.job_ids + ids@.take(i as int),
                    ..batch0
                }),
                jobs@.len() == jobs0.len() + i,
                forall|a: int| 0 <= a < jobs0.len() ==> jobs@[a] == jobs0[a],
                forall|a: int| 0 <= a < i ==> jobs@[jobs0.len() + a] == (Job {
                    id: ids@[a],
                    input_filename: filenames@[a],
                    options: batch0.options,
                    status: JobStatus::Queued,
                    progress: None::<Progress>,
                    created_at: now,
                    started_at: None::<u64>,
                    completed_at: None::<u64>,
                    output_path: None::<String>,
                    error: None::<String>,
                    retry_of: None::<u128>,
                }),
            decreases ids@.len() - i,
        {
            let job = Job::new(ids[i], filenames[i].clone(), batch.options, now);
            let ghost pre = jobs@;
            proof {
                // The id is absent from the original registry and from every
                // job appended so far, so this submit cannot collide.
                if has_job(pre, ids@[i as int]) {
                    let w = job_index(pre, ids@[i as int]);
                    assert(pre[w].id == ids@[i as int]);
                    if w < jobs0.len() {
                        assert(pre[w] == jobs0[w]);
                        assert(jobs0[w].id == ids@[i as int]);
                        assert(has_job(jobs0, ids@[i as int]));
                    } else {
                        assert(pre[w].id == ids@[w - jobs0.len()]);
                    }
                    assert(false);
                }
            }
            let r = jobs.submit(job);
            proof {
                assert(r.is_ok());
            }
            self.push_batch_id(batch, ids[i]);
            proof {
                assert(batch0.job_ids + ids@.take(i + 1) =~= (batch0.job_ids + ids@.take(
                    i as int,
                )).push(ids@[i as int]));
                assert(batch@ =~= (BatchView {
                    job_ids: batch0.job_ids + ids@.take(i + 1),
                    ..batch0
                }));
            }
            i += 1;
        }
        proof {
            assert(ids@.take(ids@.len() as int) =~= ids@);
            assert(batch@ =~= (BatchView { job_ids: batch0.job_ids + ids@, ..batch0 }));
        }
        Ok(())
    }

    /// Append one fresh constituent id to a batch's ordered list.
    fn push_batch_id(&self, batch: &mut BatchJob, id: u128) -> (r: bool)
        requires
            old(batch).wf(),
            !old(batch)@.job_ids.contains(id),
        ensures
            r,
            final(batch)@ == (BatchView {
                job_ids: old(batch)@.job_ids.push(id),
                ..old(batch)@
            }),
            final(batch).wf(),
    {
        batch.job_ids.push(id);
        proof {
            assert(batch@ =~= (BatchView {
                job_ids: old(batch)@.job_ids.push(id),
                ..old(batch)@
            }));
            assert forall|a: int, b: int| 0 <= a < b < batch@.job_ids.len() implies batch@
                .job_ids[a] != batch@.job_ids[b] by {
                if b < old(batch)@.job_ids.len() {
                    assert(old(batch)@.job_ids[a] != old(batch)@.job_ids[b]);
                } else {
                    assert(batch@.job_ids[b] == id);
                    assert(old(batch)@.job_ids.contains(old(batch)@.job_ids[a])) by {
                        assert(old(batch)@.job_ids[a] == old(batch)@.job_ids[a]);
                    }
                }
            }
        }
        true
    }

    /// Generate fresh random ids and create one job per filename, as
    /// [`Self::create_jobs_with_ids`] does.  An id collision — negligible
    /// with random 128-bit ids — refuses the whole call.
    pub fn create_jobs(
        &self,
        batch: &mut BatchJob,
        filenames: &Vec<String>,
        jobs: &mut JobQueue,
        now: u64,
    ) -> (r: Result<(), EngineError>)
        requires
            old(jobs).wf(),
            old(batch).wf(),
        ensures
            final(jobs).wf(),
            final(batch).wf(),
            r.is_ok() ==> {
                &&& final(batch)@.job_ids.len() == old(batch)@.job_ids.len()
                    + filenames@.len()
                &&& final(batch)@ == (BatchView {
                    job_ids: final(batch)@.job_ids,
                    ..old(batch)@
                })
                &&& forall|i: int| 0 <= i < old(batch)@.job_ids.len() ==> final(batch)@
                    .job_ids[i] == old(batch)@.job_ids[i]
                &&& final(jobs)@.len() == old(jobs)@.len() + filenames@.len()
                &&& forall|i: int| 0 <= i < old(jobs)@.len() ==> final(jobs)@[i] == old(jobs)@[i]
                &&& forall|i: int| 0 <= i < filenames@.len() ==> final(jobs)@[old(jobs)@.len()
                    + i] == (Job {
                    id: final(batch)@.job_ids[old(batch)@.job_ids.len() + i],
                    input_filename: filenames@[i],
                    options: old(batch)@.options,
                    status: JobStatus::Queued,
                    progress: None::<Progress>,
                    created_at: now,
                    started_at: None::<u64>,
                    completed_at: None::<u64>,
                    output_path: None::<String>,
                    error: None::<String>,
                    retry_of: None::<u128>,
                })
            },
            r.is_err() ==> final(batch)@ == old(batch)@ && final(jobs)@ == old(jobs)@ && (
            r matches Err(EngineError::DuplicateId)),
    {
        let mut ids: Vec<u128> = Vec::new();
        let mut i: usize = 0;
        while i < filenames.len()
            invariant
                0 <= i <= filenames@.len(),
                ids@.len() == i,
            decreases filenames@.len() - i,
        {
            ids.push(fresh_id());
            i += 1;
        }
        self.create_jobs_with_ids(batch, filenames, &ids, jobs, now)
    }

    /// Read live job state for each constituent id and classify it into
    /// completed, failed, cancelled or pending; an eventually-consistent
    /// aggregate, not an atomic cross-job snapshot.
    pub fn get_progress(&self, batch_id: u128, jobs: &JobQueue) -> (r: Option<BatchProgress>)
        requires
            self.wf(),
            jobs.wf(),
        ensures
            r.is_some() == has_batch(self@, batch_id),
            r matches Some(p) ==> {
                let ids = batch_of(self@, batch_id).job_ids;
                &&& p.total == ids.len()
                &&& p.completed == count_completed(jobs@, ids)
                &&& p.failed == count_failed(jobs@, ids)
                &&& p.cancelled == count_cancelled(jobs@, ids)
                &&& p.pending == count_pending(jobs@, ids)
                &&& p.wf()
            },
    {
        let batch = match self.get(batch_id) {
            Some(b) => b,
            None => {
                return None;
            },
        };
        let ghost ids = batch@.job_ids;
        let mut completed: usize = 0;
        let mut failed: usize = 0;
        let mut cancelled: usize = 0;
        let mut pending: usize = 0;
        let mut i: usize = 0;
        while i < batch.job_ids.len()
            invariant
                jobs.wf(),
                ids == batch@.job_ids,
                0 <= i <= ids.len(),
                completed == count_completed(jobs@, ids.take(i as int)),
                failed == count_failed(jobs@, ids.take(i as int)),
                cancelled == count_cancelled(jobs@, ids.take(i as int)),
                pending == count_pending(jobs@, ids.take(i as int)),
                completed + failed + cancelled + pending == i,
            decreases ids.len() - i,
        {
            proof {
                assert(ids.take(i + 1).drop_last() =~= ids.take(i as int));
                assert(ids.take(i + 1).last() == ids[i as int]);
            }
            match jobs.get(batch.job_ids[i]) {
                Some(j) => {
                    match j.status {
                        JobStatus::Completed => {
                            completed += 1;
                        },
                        JobStatus::Failed => {
                            failed += 1;
                        },
                        JobStatus::Cancelled => {
                            cancelled += 1;
                        },
                        JobStatus::Queued | JobStatus::Processing => {
                            pending += 1;
                        },
                    }
                },
                None => {
                    pending += 1;
                },
            }
            i += 1;
        }
        proof {
            assert(ids.take(ids.len() as int) =~= ids);
        }
        Some(
            BatchProgress {
                total: batch.job_ids.len(),
                completed,
                failed,
                pending,
                cancelled,
            },
        )
    }

    /// Cancel every non-terminal constituent job through the job registry,
    /// mark the batch `Cancelled`, and report how many jobs were cancelled
    /// and how many were already terminal.
    pub fn cancel(&mut self, batch_id: u128, jobs: &mut JobQueue, now: u64) -> (r: Option<(
        usize,
        usize,
    )>)
        requires
            old(self).wf(),
            old(jobs).wf(),
        ensures
            final(self).wf(),
            final(jobs).wf(),
            r.is_some() == has_batch(old(self)@, batch_id),
            r.is_none() ==> final(self)@ == old(self)@ && final(jobs)@ == old(jobs)@,
            r matches Some((n_cancelled, n_terminal)) ==> {
                let b = batch_of(old(self)@, batch_id);
                let ids = b.job_ids;
                &&& n_cancelled == count_cancellable(old(jobs)@, ids)
                &&& n_cancelled + n_terminal == ids.len()
                &&& final(self)@ == old(self)@.update(batch_index(old(self)@, batch_id),
                    (BatchView { status: BatchStatus::Cancelled, ..b }))
                &&& final(jobs)@.len() == old(jobs)@.len()
                &&& forall|k: int| 0 <= k < old(jobs)@.len() ==> final(jobs)@[k]
                    == if ids.contains(old(jobs)@[k].id) && !old(jobs)@[k].status.is_terminal() {
                        cancel_spec(old(jobs)@[k], now)
                    } else {
                        old(jobs)@[k]
                    }
            },
    {
        let batch = match self.get(batch_id) {
            Some(b) => b,
            None => {
                return None;
            },
        };
        let ghost ids = batch@.job_ids;
        let ghost jobs0 = jobs@;
        let mut n_cancelled: usize = 0;
        let mut i: usize = 0;
        while i < batch.job_ids.len()
            invariant
                jobs.wf(),
                batch.wf(),
                ids == batch@.job_ids,
                jobs0.len() == jobs@.len(),
                crate::queue::unique_ids(jobs0),
                0 <= i <= ids.len(),
                n_cancelled == count_cancellable(jobs0, ids.take(i as int)),
                n_cancelled <= i,
                forall|k: int| 0 <= k < jobs@.len() ==> (#[trigger] jobs@[k].id) == jobs0[k].id,
                forall|k: int| 0 <= k < jobs@.len() ==> jobs@[k]
                    == if ids.take(i as int).contains(jobs0[k].id)
                        && !jobs0[k].status.is_terminal() {
                        cancel_spec(jobs0[k], now)
                    } else {
                        jobs0[k]
                    },
            decreases ids.len() - i,
        {
            proof {
                assert(ids.take(i + 1).drop_last() =~= ids.take(i as int));
                assert(ids.take(i + 1).last() == ids[i as int]);
            }
            let id = batch.job_ids[i];
            let prior = jobs.get(id);
            let ghost pre = jobs@;
            match prior {
                Some(j) => {
                    proof {
                        // Resolve the live record back to the original
                        // registry entry: ids never change, and this id was
                        // not touched by an earlier iteration because the
                        // batch's ids are distinct.
                        let w = job_index(pre, id);
                        assert(pre[w].id == id);
                        assert(jobs0[w].id == id);
                        crate::queue::lemma_job_index_unique(jobs0, w, id);
                        if ids.take(i as int).contains(jobs0[w].id) {
                            let t = choose|t: int| 0 <= t < i && #[trigger] ids.take(i as int)[t]
                                == jobs0[w].id;
                            assert(ids[t] == ids[i as int]);
                        }
                        assert(pre[w] == jobs0[w]);
                        assert(has_job(jobs0, id));
                        assert(job_of(jobs0, id) == jobs0[w]);
                    }
                    if !j.status.terminal() {
                        let _c = jobs.cancel(id, now);
                        proof {
                            let w = job_index(pre, id);
                            assert(jobs@ == pre.update(w, cancel_spec(pre[w], now)));
                            assert forall|k: int| 0 <= k < jobs@.len() implies jobs@[k]
                                == if ids.take(i + 1).contains(jobs0[k].id)
                                    && !jobs0[k].status.is_terminal() {
                                    cancel_spec(jobs0[k], now)
                                } else {
                                    jobs0[k]
                                } by {
                                if k == w {
                                    assert(ids.take(i + 1).contains(jobs0[k].id)) by {
                                        assert(ids.take(i + 1)[i as int] == jobs0[w].id);
                                    }
                                } else {
                                    assert(jobs@[k] == pre[k]);
                                    if ids.take(i + 1).contains(jobs0[k].id) {
                                        let t = choose|t: int| 0 <= t <= i
                                            && #[trigger] ids.take(i + 1)[t] == jobs0[k].id;
                                        if t == i {
                                            crate::queue::lemma_job_index_unique(
                                                jobs0,
                                                k,
                                                jobs0[k].id,
                                            );
                                            assert(false);
                                        } else {
                                            assert(ids.take(i as int).contains(jobs0[k].id))
                                                by {
                                                assert(ids.take(i as int)[t] == jobs0[k].id);
                                            }
                                        }
                                    } else {
                                        assert(!ids.take(i as int).contains(jobs0[k].id)) by {
                                            if ids.take(i as int).contains(jobs0[k].id) {
                                                let t = choose|t: int| 0 <= t < i
                                                    && #[trigger] ids.take(i as int)[t]
                                                    == jobs0[k].id;
                                                assert(ids.take(i + 1)[t] == jobs0[k].id);
                                            }
                                        }
                                    }
                                }
                            }
                        }
                        n_cancelled += 1;
                    } else {
                        proof {
                            lemma_take_contains_extend(ids, i as int, jobs0);
                        }
                    }
                },
                None => {
                    proof {
                        lemma_take_contains_extend(ids, i as int, jobs0);
                        if has_job(jobs0, id) {
                            let w = job_index(jobs0, id);
                            assert(jobs@[w].id == id);
                            assert(has_job(jobs@, id));
                        }
                    }
                },
            }
            i += 1;
        }
        proof {
            assert(ids.take(ids.len() as int) =~= ids);
        }
        let n_terminal = batch.job_ids.len() - n_cancelled;
        proof {
            lemma_count_cancellable_le(jobs0, ids);
        }
        let updated = self.update(batch_id, BatchMutation::Cancel, now);
        proof {
            assert(updated.is_some());
        }
        Some((n_cancelled, n_terminal))
    }
}

/// A step of the batch-cancel loop that touches no job: membership of each
/// registry id in the processed prefix extends unchanged, because the
/// batch's ids are distinct.
proof fn lemma_take_contains_extend(ids: Seq<u128>, i: int, jobs0: Seq<Job>)
    requires
        0 <= i < ids.len(),
        all_distinct(ids),
    ensures
        forall|k: int| 0 <= k < jobs0.len() ==> (ids.take(i + 1).contains(
            #[trigger] jobs0[k].id,
        ) && jobs0[k].id != ids[i]) == ids.take(i).contains(jobs0[k].id),
        forall|k: int| 0 <= k < jobs0.len() && jobs0[k].id == ids[i] ==> !ids.take(i).contains(
            #[trigger] jobs0[k].id,
        ),
{
    assert forall|k: int| 0 <= k < jobs0.len() implies (ids.take(i + 1).contains(
        #[trigger] jobs0[k].id,
    ) && jobs0[k].id != ids[i]) == ids.take(i).contains(jobs0[k].id) by {
        if ids.take(i).contains(jobs0[k].id) {
            let t = choose|t: int| 0 <= t < i && #[trigger] ids.take(i)[t] == jobs0[k].id;
            assert(ids.take(i + 1)[t] == jobs0[k].id);
            assert(ids[t] != ids[i]);
        }
        if ids.take(i + 1).contains(jobs0[k].id) && jobs0[k].id != ids[i] {
            let t = choose|t: int| 0 <= t < i + 1 && #[trigger] ids.take(i + 1)[t] == jobs0[
                k].id;
            assert(t != i);
            assert(ids.take(i)[t] == jobs0[k].id);
        }
    }
    assert forall|k: int| 0 <= k < jobs0.len() && jobs0[k].id == ids[i] implies !ids.take(
        i,
    ).contains(#[trigger] jobs0[k].id) by {
        if ids.take(i).contains(jobs0[k].id) {
            let t = choose|t: int| 0 <= t < i && #[trigger] ids.take(i)[t] == jobs0[k].id;
            assert(ids[t] == ids[i]);
        }
    }
}

/// The cancellable count never exceeds the number of ids.
proof fn lemma_count_cancellable_le(s: Seq<Job>, ids: Seq<u128>)
    ensures
        count_cancellable(s, ids) <= ids.len(),
    decreases ids.len(),
{
    if ids.len() > 0 {
        lemma_count_cancellable_le(s, ids.drop_last());
    }
}

} // verus!
