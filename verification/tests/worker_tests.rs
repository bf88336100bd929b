use std::collections::HashMap;

use superbook_pdf::error::EngineError;
use superbook_pdf::job::ConvertOptions;
use superbook_pdf::job::Job;
use superbook_pdf::job::JobStatus;
use superbook_pdf::queue::JobQueue;
use superbook_pdf::worker::begin_job;
use superbook_pdf::worker::complete_job;
use superbook_pdf::worker::dispatch_stage;
use superbook_pdf::worker::fail_job;
use superbook_pdf::worker::stage_name;
use superbook_pdf::worker::StageDecision;
use superbook_pdf::worker::WorkIntake;
use superbook_pdf::worker::WorkerMessage;
use superbook_pdf::worker::STAGE_COUNT;

fn queued_job(id: u128, name: &str) -> Job {
    Job::new(id, name.to_string(), ConvertOptions::default(), 1_000)
}

#[test]
fn test_intake_is_bounded_fifo() {
    let mut intake = WorkIntake::new(2);
    assert_eq!(intake.capacity(), 2);
    intake
        .push(WorkerMessage::Process { job_id: 1, input_path: "a.pdf".to_string() })
        .unwrap();
    intake
        .push(WorkerMessage::Process { job_id: 2, input_path: "b.pdf".to_string() })
        .unwrap();
    let refused = intake.push(WorkerMessage::Shutdown);
    assert!(matches!(refused, Err(EngineError::CapacityExceeded)));
    assert_eq!(intake.len(), 2);

    match intake.pop().unwrap() {
        WorkerMessage::Process { job_id, .. } => assert_eq!(job_id, 1),
        WorkerMessage::Shutdown => panic!("wrong message order"),
    }
    match intake.pop().unwrap() {
        WorkerMessage::Process { job_id, .. } => assert_eq!(job_id, 2),
        WorkerMessage::Shutdown => panic!("wrong message order"),
    }
    assert!(intake.pop().is_none());
}

#[test]
fn test_stage_names_cover_the_pipeline() {
    assert_eq!(STAGE_COUNT, 12);
    assert_eq!(stage_name(0), "PDF Reading");
    assert_eq!(stage_name(4), "AI Upscaling");
    assert_eq!(stage_name(11), "Complete");
}

#[test]
fn test_executor_runs_a_job_to_completion() {
    let mut jobs = JobQueue::new();
    jobs.submit(queued_job(1, "doc.pdf")).unwrap();
    assert!(begin_job(&mut jobs, 1, 1_100));
    let started = jobs.get(1).unwrap();
    assert_eq!(started.status, JobStatus::Processing);
    assert_eq!(started.started_at, Some(1_100));
    assert_eq!(started.progress.as_ref().unwrap().step_name, "Starting");

    for stage in 0..STAGE_COUNT {
        assert_eq!(dispatch_stage(&mut jobs, 1, stage, 1_200), StageDecision::Proceed);
        let p = jobs.get(1).unwrap().progress.unwrap();
        assert_eq!(p.current_step, stage + 1);
        assert_eq!(p.total_steps, STAGE_COUNT);
        assert_eq!(p.step_name, stage_name(stage));
    }
    let done = complete_job(&mut jobs, 1, "doc.out.pdf".to_string(), 2_000).unwrap();
    assert_eq!(done.status, JobStatus::Completed);
    assert_eq!(done.output_path.as_deref(), Some("doc.out.pdf"));
    assert_eq!(jobs.get(1).unwrap().progress.unwrap().percent, 100);
}

#[test]
fn test_executor_observes_cancellation_between_stages() {
    let mut jobs = JobQueue::new();
    jobs.submit(queued_job(1, "doc.pdf")).unwrap();
    begin_job(&mut jobs, 1, 1_100);
    assert_eq!(dispatch_stage(&mut jobs, 1, 0, 1_150), StageDecision::Proceed);
    // Cancelled externally between stages.
    jobs.cancel(1, 1_200);
    assert_eq!(dispatch_stage(&mut jobs, 1, 1, 1_250), StageDecision::Abort);
    let job = jobs.get(1).unwrap();
    assert_eq!(job.status, JobStatus::Cancelled);
    assert_eq!(job.progress.unwrap().current_step, 1);
}

#[test]
fn test_executor_reports_unknown_job() {
    let mut jobs = JobQueue::new();
    assert_eq!(dispatch_stage(&mut jobs, 99, 0, 1_000), StageDecision::Gone);
    assert!(!begin_job(&mut jobs, 99, 1_000));
    assert!(complete_job(&mut jobs, 99, "x".to_string(), 1_000).is_none());
}

#[test]
fn test_failed_pipeline_never_halts_the_pool() {
    let mut jobs = JobQueue::new();
    jobs.submit(queued_job(1, "bad.pdf")).unwrap();
    jobs.submit(queued_job(2, "good.pdf")).unwrap();
    begin_job(&mut jobs, 1, 1_100);
    let failed = fail_job(&mut jobs, 1, "decode error".to_string(), 1_200).unwrap();
    assert_eq!(failed.status, JobStatus::Failed);
    assert_eq!(failed.error.as_deref(), Some("decode error"));
    // The next item processes normally.
    begin_job(&mut jobs, 2, 1_300);
    complete_job(&mut jobs, 2, "good.out".to_string(), 1_400);
    assert_eq!(jobs.get(2).unwrap().status, JobStatus::Completed);
}

#[test]
fn test_hundred_jobs_each_processed_exactly_once() {
    // The submission path places each id on the intake exactly once, so
    // the executors draw each job exactly once among them.
    let mut jobs = JobQueue::new();
    let mut intake = WorkIntake::new(100);
    for i in 0..100u128 {
        jobs.submit(queued_job(i, &format!("doc{}.pdf", i))).unwrap();
        intake
            .push(WorkerMessage::Process { job_id: i, input_path: format!("doc{}.pdf", i) })
            .unwrap();
    }
    assert_eq!(jobs.list().len(), 100);

    // Two executors drain the shared intake; count who processed what.
    let mut processed: HashMap<u128, usize> = HashMap::new();
    let mut executor = 0usize;
    while let Some(message) = intake.pop() {
        let WorkerMessage::Process { job_id, .. } = message else {
            break;
        };
        executor = (executor + 1) % 2;
        begin_job(&mut jobs, job_id, 2_000);
        for stage in 0..STAGE_COUNT {
            assert_eq!(
                dispatch_stage(&mut jobs, job_id, stage, 2_100),
                StageDecision::Proceed
            );
        }
        complete_job(&mut jobs, job_id, format!("doc{}.out", job_id), 2_200);
        *processed.entry(job_id).or_insert(0) += 1;
    }

    assert_eq!(processed.len(), 100);
    for i in 0..100u128 {
        assert_eq!(processed[&i], 1);
        assert_eq!(jobs.get(i).unwrap().status, JobStatus::Completed);
    }
}
