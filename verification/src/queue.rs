//! The concurrent job registry: the sole owner and point of mutation of all
//! job records.
//!
//! Callers receive snapshot copies, never live handles.  Mutation goes
//! through [`JobQueue::update`] with a named [`JobMutation`], which applies
//! one state-machine transition atomically and returns the post-mutation
//! snapshot.  A process that shares the registry across tasks wraps it in a
//! lock; within that lock each operation here is one linearization point.

use vstd::prelude::*;

use crate::error::EngineError;
use crate::job::apply_spec;
use crate::job::cancel_spec;
use crate::job::mutation_wf;
use crate::job::Job;
use crate::job::JobMutation;
use crate::job::JobStatus;

verus! {

/// Some record in `s` carries this id.
pub open spec fn has_job(s: Seq<Job>, id: u128) -> bool {
    exists|i: int| 0 <= i < s.len() && s[i].id == id
}

/// The index of the record with this id (meaningful when `has_job` holds
/// and ids are unique).
pub open spec fn job_index(s: Seq<Job>, id: u128) -> int {
    choose|i: int| 0 <= i < s.len() && s[i].id == id
}

/// The record with this id.
pub open spec fn job_of(s: Seq<Job>, id: u128) -> Job {
    s[job_index(s, id)]
}

/// No two records share an id.
pub open spec fn unique_ids(s: Seq<Job>) -> bool {
    forall|i: int, j: int| 0 <= i < j < s.len() ==> s[i].id != s[j].id
}

/// Every record satisfies the job invariant.
pub open spec fn all_jobs_wf(s: Seq<Job>) -> bool {
    forall|i: int| 0 <= i < s.len() ==> #[trigger] s[i].wf()
}

/// How many records are not yet terminal.
pub open spec fn count_active(s: Seq<Job>) -> nat
    decreases s.len(),
{
    if s.len() == 0 {
        0
    } else {
        count_active(s.drop_last()) + if s.last().status.is_terminal() {
            0nat
        } else {
            1nat
        }
    }
}

/// With unique ids, any index holding `id` is the index `job_index` picks.
pub proof fn lemma_job_index_unique(s: Seq<Job>, i: int, id: u128)
    requires
        unique_ids(s),
        0 <= i < s.len(),
        s[i].id == id,
    ensures
        has_job(s, id),
        job_index(s, id) == i,
        job_of(s, id) == s[i],
{
    assert(has_job(s, id));
    let k = job_index(s, id);
    if k < i {
        assert(s[k].id != s[i].id);
    } else if i < k {
        assert(s[i].id != s[k].id);
    }
}

/// The authoritative map from job id to job, ordered by creation.
#[derive(Debug)]
pub struct JobQueue {
    jobs: Vec<Job>,
}

impl View for JobQueue {
    type V = Seq<Job>;

    closed spec fn view(&self) -> Seq<Job> {
        self.jobs@
    }
}

impl JobQueue {
    /// Registry invariant: unique ids, every record well formed.
    pub open spec fn wf(self) -> bool {
        unique_ids(self@) && all_jobs_wf(self@)
    }

    /// An empty registry.
    pub fn new() -> (q: JobQueue)
        ensures
            q@ == Seq::<Job>::empty(),
            q.wf(),
    {
        let q = JobQueue { jobs: Vec::new() };
        proof {
            assert(q@ =~= Seq::<Job>::empty());
        }
        q
    }

    /// Number of records.
    pub fn len(&self) -> (n: usize)
        ensures
            n == self@.len(),
    {
        self.jobs.len()
    }

    /// Whether a record with this id exists.
    pub fn contains_id(&self, id: u128) -> (b: bool)
        ensures
            b == has_job(self@, id),
    {
        let mut i: usize = 0;
        while i < self.jobs.len()
            invariant
                0 <= i <= self.jobs.len(),
                forall|k: int| 0 <= k < i ==> self.jobs@[k].id != id,
            decreases self.jobs.len() - i,
        {
            if self.jobs[i].id == id {
                return true;
            }
            i += 1;
        }
        false
    }

    /// Insert a new record; refused when the id is already present.
    pub fn submit(&mut self, job: Job) -> (r: Result<(), EngineError>)
        requires
            old(self).wf(),
            job.wf(),
        ensures
            final(self).wf(),
            r.is_ok() == !has_job(old(self)@, job.id),
            r.is_ok() ==> final(self)@ == old(self)@.push(job),
            r.is_err() ==> final(self)@ == old(self)@ && (r matches Err(
                EngineError::DuplicateId,
            )),
    {
        if self.contains_id(job.id) {
            Err(EngineError::DuplicateId)
        } else {
            self.jobs.push(job);
            Ok(())
        }
    }

    /// Immutable snapshot copy of the record with this id.
    pub fn get(&self, id: u128) -> (r: Option<Job>)
        requires
            self.wf(),
        ensures
            r.is_some() == has_job(self@, id),
            r matches Some(j) ==> j == job_of(self@, id) && j.wf(),
    {
        let mut i: usize = 0;
        while i < self.jobs.len()
            invariant
                self.wf(),
                0 <= i <= self.jobs.len(),
                forall|k: int| 0 <= k < i ==> self.jobs@[k].id != id,
            decreases self.jobs.len() - i,
        {
            if self.jobs[i].id == id {
                proof {
                    lemma_job_index_unique(self@, i as int, id);
                }
                return Some(self.jobs[i].clone());
            }
            i += 1;
        }
        None
    }

    /// Apply one state-machine transition atomically and return the
    /// post-mutation snapshot, or nothing when the id is unknown.
    pub fn update(&mut self, id: u128, mutation: JobMutation, now: u64) -> (r: Option<Job>)
        requires
            old(self).wf(),
            mutation_wf(mutation),
        ensures
            final(self).wf(),
            r.is_some() == has_job(old(self)@, id),
            r.is_none() ==> final(self)@ == old(self)@,
            r matches Some(j) ==> j == apply_spec(job_of(old(self)@, id), mutation, now)
                && final(self)@ == old(self)@.update(job_index(old(self)@, id), j),
    {
        let mut i: usize = 0;
        while i < self.jobs.len()
            invariant
                old(self) == self,
                self.wf(),
                mutation_wf(mutation),
                0 <= i <= self.jobs.len(),
                forall|k: int| 0 <= k < i ==> self.jobs@[k].id != id,
            decreases self.jobs.len() - i,
        {
            if self.jobs[i].id == id {
                proof {
                    lemma_job_index_unique(self@, i as int, id);
                }
                let mut job = self.jobs[i].clone();
                job.apply(mutation, now);
                let snapshot = job.clone();
                self.jobs.set(i, job);
                proof {
                    assert forall|a: int, b: int| 0 <= a < b < self@.len() implies self@[a].id
                        != self@[b].id by {
                        assert(old(self)@[a].id != old(self)@[b].id);
                    }
                    assert forall|a: int| 0 <= a < self@.len() implies #[trigger] self@[a].wf()
                        by {
                        assert(old(self)@[a].wf());
                    }
                }
                return Some(snapshot);
            }
            i += 1;
        }
        None
    }

    /// Cancel one job: the convenience form of an atomic cancel update.
    pub fn cancel(&mut self, id: u128, now: u64) -> (r: Option<Job>)
        requires
            old(self).wf(),
        ensures
            final(self).wf(),
            r.is_some() == has_job(old(self)@, id),
            r.is_none() ==> final(self)@ == old(self)@,
            r matches Some(j) ==> j == cancel_spec(job_of(old(self)@, id), now)
                && final(self)@ == old(self)@.update(job_index(old(self)@, id), j),
    {
        self.update(id, JobMutation::Cancel, now)
    }

    /// Snapshot of every record, in creation order.
    pub fn list(&self) -> (r: Vec<Job>)
        ensures
            r@ == self@,
    {
        let mut out: Vec<Job> = Vec::new();
        let mut i: usize = 0;
        while i < self.jobs.len()
            invariant
                0 <= i <= self.jobs.len(),
                out@ =~= self.jobs@.take(i as int),
            decreases self.jobs.len() - i,
        {
            out.push(self.jobs[i].clone());
            i += 1;
        }
        proof {
            assert(out@ =~= self@);
        }
        out
    }

    /// Number of jobs not yet in a terminal status.
    pub fn active_count(&self) -> (n: usize)
        ensures
            n == count_active(self@),
    {
        let mut n: usize = 0;
        let mut i: usize = 0;
        while i < self.jobs.len()
            invariant
                0 <= i <= self.jobs.len(),
                n == count_active(self.jobs@.take(i as int)),
                n <= i,
            decreases self.jobs.len() - i,
        {
            proof {
                assert(self.jobs@.take(i + 1).drop_last() =~= self.jobs@.take(i as int));
                assert(self.jobs@.take(i + 1).last() == self.jobs@[i as int]);
            }
            if !self.jobs[i].status.terminal() {
                n += 1;
            }
            i += 1;
        }
        proof {
            assert(self.jobs@.take(self.jobs@.len() as int) =~= self@);
        }
        n
    }

    /// Cancel every non-terminal job, recording the given reason; terminal
    /// jobs are untouched.  Returns how many were cancelled.
    pub fn cancel_active(&mut self, reason: &str, now: u64) -> (n: usize)
        requires
            old(self).wf(),
        ensures
            final(self).wf(),
            final(self)@.len() == old(self)@.len(),
            n == count_active(old(self)@),
            forall|i: int| 0 <= i < old(self)@.len() ==> #[trigger] final(self)@[i]
                == if old(self)@[i].status.is_terminal() {
                    old(self)@[i]
                } else {
                    crate::job::cancel_with_reason_spec(old(self)@[i], final(self)@[i].error.unwrap(), now)
                },
            forall|i: int| 0 <= i < old(self)@.len() && !old(self)@[i].status.is_terminal()
                ==> ((#[trigger] final(self)@[i].error) matches Some(e) && e@ == reason@),
    {
        let ghost orig = self.jobs@;
        let mut n: usize = 0;
        let mut i: usize = 0;
        while i < self.jobs.len()
            invariant
                self.jobs@.len() == orig.len(),
                unique_ids(orig),
                all_jobs_wf(orig),
                0 <= i <= orig.len(),
                n == count_active(orig.take(i as int)),
                n <= i,
                forall|k: int| 0 <= k < i ==> #[trigger] self.jobs@[k]
                    == if orig[k].status.is_terminal() {
                        orig[k]
                    } else {
                        crate::job::cancel_with_reason_spec(orig[k], self.jobs@[k].error.unwrap(), now)
                    },
                forall|k: int| 0 <= k < i && !orig[k].status.is_terminal()
                    ==> ((#[trigger] self.jobs@[k].error) matches Some(e) && e@ == reason@),
                forall|k: int| i <= k < orig.len() ==> #[trigger] self.jobs@[k] == orig[k],
            decreases orig.len() - i,
        {
            proof {
                assert(orig.take(i + 1).drop_last() =~= orig.take(i as int));
                assert(orig.take(i + 1).last() == orig[i as int]);
            }
            if !self.jobs[i].status.terminal() {
                let mut job = self.jobs[i].clone();
                job.cancel_with_reason(reason.to_owned(), now);
                self.jobs.set(i, job);
                n += 1;
            }
            i += 1;
        }
        proof {
            assert(orig.take(orig.len() as int) =~= orig);
            assert forall|a: int, b: int| 0 <= a < b < self@.len() implies self@[a].id
                != self@[b].id by {
                assert(orig[a].id != orig[b].id);
            }
            assert forall|a: int| 0 <= a < self@.len() implies #[trigger] self@[a].wf() by {
                assert(orig[a].wf());
            }
        }
        n
    }

    /// Mark every non-terminal job failed with the given reason, as crash
    /// recovery does; terminal jobs are untouched.  Returns how many were
    /// reclassified.
    pub fn fail_active(&mut self, reason: &str, now: u64) -> (n: usize)
        requires
            old(self).wf(),
        ensures
            final(self).wf(),
            final(self)@.len() == old(self)@.len(),
            n == count_active(old(self)@),
            forall|i: int| 0 <= i < old(self)@.len() ==> #[trigger] final(self)@[i]
                == if old(self)@[i].status.is_terminal() {
                    old(self)@[i]
                } else {
                    crate::job::fail_spec(old(self)@[i], final(self)@[i].error.unwrap(), now)
                },
            forall|i: int| 0 <= i < old(self)@.len() && !old(self)@[i].status.is_terminal()
                ==> ((#[trigger] final(self)@[i].error) matches Some(e) && e@ == reason@),
    {
        let ghost orig = self.jobs@;
        let mut n: usize = 0;
        let mut i: usize = 0;
        while i < self.jobs.len()
            invariant
                self.jobs@.len() == orig.len(),
                unique_ids(orig),
                all_jobs_wf(orig),
                0 <= i <= orig.len(),
                n == count_active(orig.take(i as int)),
                n <= i,
                forall|k: int| 0 <= k < i ==> #[trigger] self.jobs@[k]
                    == if orig[k].status.is_terminal() {
                        orig[k]
                    } else {
                        crate::job::fail_spec(orig[k], self.jobs@[k].error.unwrap(), now)
                    },
                forall|k: int| 0 <= k < i && !orig[k].status.is_terminal()
                    ==> ((#[trigger] self.jobs@[k].error) matches Some(e) && e@ == reason@),
                forall|k: int| i <= k < orig.len() ==> #[trigger] self.jobs@[k] == orig[k],
            decreases orig.len() - i,
        {
            proof {
                assert(orig.take(i + 1).drop_last() =~= orig.take(i as int));
                assert(orig.take(i + 1).last() == orig[i as int]);
            }
            if !self.jobs[i].status.terminal() {
                let mut job = self.jobs[i].clone();
                job.fail(reason.to_owned(), now);
                self.jobs.set(i, job);
                n += 1;
            }
            i += 1;
        }
        proof {
            assert(orig.take(orig.len() as int) =~= orig);
            assert forall|a: int, b: int| 0 <= a < b < self@.len() implies self@[a].id
                != self@[b].id by {
                assert(orig[a].id != orig[b].id);
            }
            assert forall|a: int| 0 <= a < self@.len() implies #[trigger] self@[a].wf() by {
                assert(orig[a].wf());
            }
        }
        n
    }

    /// Create a new queued job with the same filename and options as an
    /// existing one, linked to it for lineage, and register it.
    pub fn retry(&mut self, id: u128, new_id: u128, now: u64) -> (r: Result<Job, EngineError>)
        requires
            old(self).wf(),
        ensures
            final(self).wf(),
            r.is_ok() == (has_job(old(self)@, id) && !has_job(old(self)@, new_id)),
            r matches Ok(j) ==> {
                &&& j == (Job {
                    id: new_id,
                    input_filename: job_of(old(self)@, id).input_filename,
                    options: job_of(old(self)@, id).options,
                    status: JobStatus::Queued,
                    progress: None::<crate::job::Progress>,
                    created_at: now,
                    started_at: None::<u64>,
                    completed_at: None::<u64>,
                    output_path: None::<String>,
                    error: None::<String>,
                    retry_of: Some(id),
                })
                &&& final(self)@ == old(self)@.push(j)
            },
            r.is_err() ==> final(self)@ == old(self)@,
            !has_job(old(self)@, id) ==> (r matches Err(EngineError::NotFound)),
            has_job(old(self)@, id) && has_job(old(self)@, new_id) ==> (r matches Err(
                EngineError::DuplicateId,
            )),
    {
        let original = match self.get(id) {
            Some(j) => j,
            None => {
                return Err(EngineError::NotFound);
            },
        };
        if self.contains_id(new_id) {
            return Err(EngineError::DuplicateId);
        }
        let mut job = Job::new(new_id, original.input_filename, original.options, now);
        job.retry_of = Some(id);
        let snapshot = job.clone();
        self.jobs.push(job);
        Ok(snapshot)
    }
}

} // verus!
