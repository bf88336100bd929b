//! Recovery from a durable snapshot, and history queries over terminal
//! jobs.
//!
//! The record format a job is stored in lives in [`crate::store`]; where
//! the records are kept and how often they are flushed is the embedding
//! process's concern.  What is modelled here is the reconciliation that
//! runs over the registry once the stored jobs are loaded, and the audit
//! queries over the registry.

use vstd::prelude::*;

use crate::job::Job;
use crate::job::JobStatus;
use crate::queue::count_active;
use crate::queue::JobQueue;

verus! {

/// What recovery found and did on process start.
#[derive(Clone, Copy, Debug, PartialEq, Eq, Structural)]
pub struct RecoveryResult {
    /// Jobs present in the loaded registry.
    pub total_jobs: usize,
    /// Jobs found mid-flight and reclassified to `Failed`.
    pub interrupted: usize,
}

/// Reconciles the loaded registry on process start.
pub struct RecoveryManager;

impl RecoveryManager {
    /// Deterministically reclassify every job found in a non-terminal
    /// state — it was mid-flight when the process last stopped — to
    /// `Failed` with reason `"interrupted-by-restart"`, stamping
    /// `completed_at`.  No silent resumption is attempted.
    pub fn recover(jobs: &mut JobQueue, now: u64) -> (r: RecoveryResult)
        requires
            old(jobs).wf(),
        ensures
            final(jobs).wf(),
            r.total_jobs == old(jobs)@.len(),
            r.interrupted == count_active(old(jobs)@),
            final(jobs)@.len() == old(jobs)@.len(),
            forall|i: int| 0 <= i < old(jobs)@.len() ==> #[trigger] final(jobs)@[i]
                == if old(jobs)@[i].status.is_terminal() {
                    old(jobs)@[i]
                } else {
                    crate::job::fail_spec(old(jobs)@[i], final(jobs)@[i].error.unwrap(), now)
                },
            forall|i: int| 0 <= i < old(jobs)@.len() && !old(jobs)@[i].status.is_terminal()
                ==> ((#[trigger] final(jobs)@[i].error) matches Some(e) && e@
                == "interrupted-by-restart"@),
    {
        let total_jobs = jobs.len();
        let interrupted = jobs.fail_active("interrupted-by-restart", now);
        RecoveryResult { total_jobs, interrupted }
    }
}

/// A filter over terminal jobs for audit queries.
#[derive(Clone, Copy, Debug)]
pub struct HistoryQuery {
    /// Keep only this terminal status, when set.
    pub status: Option<JobStatus>,
    /// Keep only jobs completed at or after this time, when set.
    pub completed_after: Option<u64>,
    /// Keep only jobs completed at or before this time, when set.
    pub completed_before: Option<u64>,
}

/// Whether a job is part of the query's answer: terminal, and within
/// every bound the query sets.
pub open spec fn matches_query(q: HistoryQuery, j: Job) -> bool {
    &&& j.status.is_terminal()
    &&& (q.status matches Some(st) ==> j.status == st)
    &&& (q.completed_after matches Some(t) ==> (j.completed_at matches Some(c) && c >= t))
    &&& (q.completed_before matches Some(t) ==> (j.completed_at matches Some(c) && c <= t))
}

/// The jobs of `s` that match, in registry order.
pub open spec fn query_answer(s: Seq<Job>, q: HistoryQuery) -> Seq<Job>
    decreases s.len(),
{
    if s.len() == 0 {
        Seq::empty()
    } else {
        query_answer(s.drop_last(), q) + if matches_query(q, s.last()) {
            seq![s.last()]
        } else {
            Seq::empty()
        }
    }
}

/// Whether this job is part of the query's answer.
pub fn job_matches_query(q: &HistoryQuery, j: &Job) -> (b: bool)
    ensures
        b == matches_query(*q, *j),
{
    if !j.status.terminal() {
        return false;
    }
    let status_ok = match q.status {
        Some(st) => j.status == st,
        None => true,
    };
    if !status_ok {
        return false;
    }
    let after_ok = match q.completed_after {
        Some(t) => match j.completed_at {
            Some(c) => c >= t,
            None => false,
        },
        None => true,
    };
    if !after_ok {
        return false;
    }
    match q.completed_before {
        Some(t) => match j.completed_at {
            Some(c) => c <= t,
            None => false,
        },
        None => true,
    }
}

/// Filter the registry's terminal jobs by status and completion-time
/// range, in creation order, for audit.
pub fn query_history(jobs: &JobQueue, q: &HistoryQuery) -> (r: Vec<Job>)
    ensures
        r@ == query_answer(jobs@, *q),
{
    let all = jobs.list();
    let mut out: Vec<Job> = Vec::new();
    let mut i: usize = 0;
    while i < all.len()
        invariant
            all@ == jobs@,
            0 <= i <= all@.len(),
            out@ == query_answer(all@.take(i as int), *q),
        decreases all@.len() - i,
    {
        proof {
            assert(all@.take(i + 1).drop_last() =~= all@.take(i as int));
            assert(all@.take(i + 1).last() == all@[i as int]);
        }
        if job_matches_query(q, &all[i]) {
            out.push(all[i].clone());
            proof {
                assert(out@ =~= query_answer(all@.take(i as int), *q) + seq![all@[i as int]]);
            }
        } else {
            proof {
                assert(query_answer(all@.take(i + 1), *q) =~= query_answer(all@.take(i as int),
                    *q));
            }
        }
        i += 1;
    }
    proof {
        assert(all@.take(all@.len() as int) =~= all@);
    }
    out
}

} // verus!
