use superbook_pdf::job::ConvertOptions;
use superbook_pdf::job::Job;
use superbook_pdf::job::JobMutation;
use superbook_pdf::job::JobStatus;
use superbook_pdf::persistence::RecoveryManager;
use superbook_pdf::queue::JobQueue;
use superbook_pdf::shutdown::ShutdownConfig;
use superbook_pdf::shutdown::ShutdownCoordinator;
use superbook_pdf::shutdown::ShutdownPhase;

fn queued_job(id: u128, name: &str) -> Job {
    Job::new(id, name.to_string(), ConvertOptions::default(), 1_000)
}

#[test]
fn test_recovery_fails_interrupted_job() {
    // A registry as loaded after a restart: one job was mid-flight.
    let mut jobs = JobQueue::new();
    jobs.submit(queued_job(1, "mid.pdf")).unwrap();
    jobs.update(1, JobMutation::Start, 1_100);

    let result = RecoveryManager::recover(&mut jobs, 9_000);
    assert_eq!(result.total_jobs, 1);
    assert_eq!(result.interrupted, 1);
    let job = jobs.get(1).unwrap();
    assert_eq!(job.status, JobStatus::Failed);
    assert_eq!(job.error.as_deref(), Some("interrupted-by-restart"));
    assert_eq!(job.completed_at, Some(9_000));
}

#[test]
fn test_recovery_leaves_terminal_jobs_alone() {
    let mut jobs = JobQueue::new();
    jobs.submit(queued_job(1, "done.pdf")).unwrap();
    jobs.update(1, JobMutation::Start, 1_100);
    jobs.update(1, JobMutation::Complete("done.out".to_string()), 1_200);
    jobs.submit(queued_job(2, "queued.pdf")).unwrap();

    let result = RecoveryManager::recover(&mut jobs, 9_000);
    assert_eq!(result.total_jobs, 2);
    assert_eq!(result.interrupted, 1);
    let done = jobs.get(1).unwrap();
    assert_eq!(done.status, JobStatus::Completed);
    assert_eq!(done.completed_at, Some(1_200));
    assert_eq!(jobs.get(2).unwrap().status, JobStatus::Failed);
}

#[test]
fn test_shutdown_force_cancels_still_running_jobs() {
    // Jobs whose pipeline outlives the grace period are force-cancelled.
    let mut jobs = JobQueue::new();
    for i in 0..3u128 {
        jobs.submit(queued_job(i, &format!("slow{}.pdf", i))).unwrap();
        jobs.update(i, JobMutation::Start, 1_100);
    }
    let mut coordinator = ShutdownCoordinator::new(ShutdownConfig { grace_period_ms: 500 });
    assert!(coordinator.is_accepting());

    assert!(coordinator.signal(&jobs, 2_000));
    assert!(!coordinator.is_accepting());
    assert!(!coordinator.deadline_passed(2_400));
    assert!(coordinator.deadline_passed(2_500));

    let summary = coordinator.finish(&mut jobs, 2_500).unwrap();
    assert_eq!(summary.force_cancelled, 3);
    assert_eq!(summary.drained, 0);
    assert_eq!(summary.elapsed_ms, 500);
    assert_eq!(coordinator.phase, ShutdownPhase::Stopped);
    for i in 0..3u128 {
        let job = jobs.get(i).unwrap();
        assert_eq!(job.status, JobStatus::Cancelled);
        assert_eq!(job.error.as_deref(), Some("shutdown"));
    }
}

#[test]
fn test_shutdown_counts_natural_drain() {
    let mut jobs = JobQueue::new();
    for i in 0..4u128 {
        jobs.submit(queued_job(i, &format!("j{}.pdf", i))).unwrap();
        jobs.update(i, JobMutation::Start, 1_100);
    }
    let mut coordinator = ShutdownCoordinator::new(ShutdownConfig { grace_period_ms: 1_000 });
    coordinator.signal(&jobs, 2_000);
    // Three jobs finish on their own during the drain.
    for i in 0..3u128 {
        jobs.update(i, JobMutation::Complete(format!("j{}.out", i)), 2_300);
    }
    let summary = coordinator.finish(&mut jobs, 3_000).unwrap();
    assert_eq!(summary.force_cancelled, 1);
    assert_eq!(summary.drained, 3);
    assert_eq!(summary.elapsed_ms, 1_000);
}

#[test]
fn test_shutdown_signal_is_idempotent() {
    let jobs = JobQueue::new();
    let mut coordinator = ShutdownCoordinator::new(ShutdownConfig { grace_period_ms: 100 });
    assert!(coordinator.signal(&jobs, 1_000));
    let at_signal = coordinator.signaled_at;
    assert!(!coordinator.signal(&jobs, 5_000));
    assert_eq!(coordinator.signaled_at, at_signal);
    assert_eq!(coordinator.phase, ShutdownPhase::Draining);
}

#[test]
fn test_shutdown_finish_requires_draining() {
    let mut jobs = JobQueue::new();
    let mut coordinator = ShutdownCoordinator::new(ShutdownConfig { grace_period_ms: 100 });
    assert!(coordinator.finish(&mut jobs, 1_000).is_none());
    coordinator.signal(&jobs, 1_000);
    assert!(coordinator.finish(&mut jobs, 1_200).is_some());
    // A second finish is refused: the coordinator is stopped.
    assert!(coordinator.finish(&mut jobs, 1_300).is_none());
}
