//! Coordinated shutdown: stop admissions, drain in-flight work, then force
//! the rest.
//!
//! The coordinator moves `Running -> Draining -> Stopped`.  A signal while
//! draining is idempotent and does not extend the wait.  The waiting itself
//! is a scheduling concern of the embedding process; the coordinator owns
//! the accounting and the forced cancellation.

use vstd::prelude::*;

use crate::queue::count_active;
use crate::queue::JobQueue;

verus! {

/// Where the coordinator stands.
#[derive(Clone, Copy, Debug, PartialEq, Eq, Structural)]
pub enum ShutdownPhase {
    Running,
    Draining,
    Stopped,
}

/// How long to wait for in-flight jobs before force-cancelling them.
#[derive(Clone, Copy, Debug, PartialEq, Eq, Structural)]
pub struct ShutdownConfig {
    pub grace_period_ms: u64,
}

/// Summary of a completed shutdown.
#[derive(Clone, Copy, Debug, PartialEq, Eq, Structural)]
pub struct ShutdownResult {
    /// Jobs that reached a terminal status on their own during the drain.
    pub drained: usize,
    /// Jobs still non-terminal at the deadline, cancelled with reason
    /// `"shutdown"`.
    pub force_cancelled: usize,
    /// Milliseconds from the signal to the end of the drain.
    pub elapsed_ms: u64,
}

/// Drains in-flight work and triggers the final flush on termination.
#[derive(Clone, Copy, Debug, PartialEq, Eq, Structural)]
pub struct ShutdownCoordinator {
    pub phase: ShutdownPhase,
    pub config: ShutdownConfig,
    /// When the first signal arrived.
    pub signaled_at: Option<u64>,
    /// How many jobs were non-terminal at the signal.
    pub active_at_signal: usize,
}

impl ShutdownCoordinator {
    /// A running coordinator that accepts submissions.
    pub fn new(config: ShutdownConfig) -> (c: ShutdownCoordinator)
        ensures
            c.phase == ShutdownPhase::Running,
            c.config == config,
            c.signaled_at.is_none(),
            c.active_at_signal == 0,
    {
        ShutdownCoordinator {
            phase: ShutdownPhase::Running,
            config,
            signaled_at: None,
            active_at_signal: 0,
        }
    }

    /// Whether new submissions are admitted: only while running.  Read and
    /// status traffic stays served regardless.
    pub fn is_accepting(&self) -> (b: bool)
        ensures
            b == (self.phase == ShutdownPhase::Running),
    {
        matches!(self.phase, ShutdownPhase::Running)
    }

    /// Receive a termination signal.  The first one starts the drain and
    /// records how much work is in flight; a repeated signal has no
    /// further effect and does not extend the wait.
    pub fn signal(&mut self, jobs: &JobQueue, now: u64) -> (changed: bool)
        ensures
            changed == (old(self).phase == ShutdownPhase::Running),
            changed ==> *final(self) == (ShutdownCoordinator {
                phase: ShutdownPhase::Draining,
                signaled_at: Some(now),
                active_at_signal: count_active(jobs@) as usize,
                ..*old(self)
            }),
            !changed ==> *final(self) == *old(self),
    {
        if matches!(self.phase, ShutdownPhase::Running) {
            self.phase = ShutdownPhase::Draining;
            self.signaled_at = Some(now);
            self.active_at_signal = jobs.active_count();
            true
        } else {
            false
        }
    }

    /// Milliseconds since the signal, zero while running or if the clock
    /// went backward.
    pub open spec fn elapsed_spec(self, now: u64) -> int {
        match self.signaled_at {
            Some(t) => if now >= t {
                now - t
            } else {
                0
            },
            None => 0,
        }
    }

    /// Whether the grace deadline has passed and the drain must end.
    pub fn deadline_passed(&self, now: u64) -> (b: bool)
        ensures
            b == (self.phase == ShutdownPhase::Draining && self.elapsed_spec(now)
                >= self.config.grace_period_ms),
    {
        if !matches!(self.phase, ShutdownPhase::Draining) {
            return false;
        }
        match self.signaled_at {
            Some(t) => if now >= t {
                now - t >= self.config.grace_period_ms
            } else {
                self.config.grace_period_ms == 0
            },
            None => self.config.grace_period_ms == 0,
        }
    }

    /// End the drain: cancel every still non-terminal job with reason
    /// `"shutdown"`, report how many drained on their own versus were
    /// forced, and stop.  Valid only while draining.
    pub fn finish(&mut self, jobs: &mut JobQueue, now: u64) -> (r: Option<ShutdownResult>)
        requires
            old(jobs).wf(),
        ensures
            final(jobs).wf(),
            r.is_some() == (old(self).phase == ShutdownPhase::Draining),
            r.is_none() ==> *final(self) == *old(self) && final(jobs)@ == old(jobs)@,
            r matches Some(summary) ==> {
                &&& *final(self) == (ShutdownCoordinator {
                    phase: ShutdownPhase::Stopped,
                    ..*old(self)
                })
                &&& summary.force_cancelled == count_active(old(jobs)@)
                &&& summary.drained == if old(self).active_at_signal >= summary.force_cancelled {
                    old(self).active_at_signal - summary.force_cancelled
                } else {
                    0int
                }
                &&& summary.elapsed_ms == old(self).elapsed_spec(now)
                &&& final(jobs)@.len() == old(jobs)@.len()
                &&& forall|i: int| 0 <= i < old(jobs)@.len() ==> #[trigger] final(jobs)@[i]
                    == if old(jobs)@[i].status.is_terminal() {
                        old(jobs)@[i]
                    } else {
                        crate::job::cancel_with_reason_spec(old(jobs)@[i],
                            final(jobs)@[i].error.unwrap(), now)
                    }
                &&& forall|i: int| 0 <= i < old(jobs)@.len()
                    && !old(jobs)@[i].status.is_terminal()
                    ==> ((#[trigger] final(jobs)@[i].error) matches Some(e) && e@
                    == "shutdown"@)
            },
    {
        if !matches!(self.phase, ShutdownPhase::Draining) {
            return None;
        }
        let force_cancelled = jobs.cancel_active("shutdown", now);
        let drained = if self.active_at_signal >= force_cancelled {
            self.active_at_signal - force_cancelled
        } else {
            0
        };
        let elapsed_ms = match self.signaled_at {
            Some(t) => if now >= t {
                now - t
            } else {
                0
            },
            None => 0,
        };
        self.phase = ShutdownPhase::Stopped;
        Some(ShutdownResult { drained, force_cancelled, elapsed_ms })
    }
}

} // verus!
