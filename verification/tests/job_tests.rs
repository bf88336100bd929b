use superbook_pdf::error::EngineError;
use superbook_pdf::job::ConvertOptions;
use superbook_pdf::job::Job;
use superbook_pdf::job::JobMutation;
use superbook_pdf::job::JobStatus;
use superbook_pdf::job::Progress;
use superbook_pdf::persistence::query_history;
use superbook_pdf::persistence::HistoryQuery;
use superbook_pdf::queue::JobQueue;

fn queued_job(id: u128, name: &str) -> Job {
    Job::new(id, name.to_string(), ConvertOptions::default(), 1_000)
}

#[test]
fn test_progress_percent_is_five_twelfths() {
    let p = Progress::new(5, 12, "Normalization");
    assert_eq!(p.percent, 41);
    assert_eq!(p.current_step, 5);
    assert_eq!(p.total_steps, 12);
    assert_eq!(p.step_name, "Normalization");
}

#[test]
fn test_progress_percent_zero_steps_done() {
    assert_eq!(Progress::new(0, 7, "x").percent, 0);
    assert_eq!(Progress::new(0, 1, "x").percent, 0);
    assert_eq!(Progress::new(0, 1_000_000, "x").percent, 0);
}

#[test]
fn test_progress_percent_all_steps_done() {
    assert_eq!(Progress::new(12, 12, "Complete").percent, 100);
    assert_eq!(Progress::new(1, 1, "Complete").percent, 100);
    assert_eq!(Progress::new(7, 7, "Complete").percent, 100);
}

#[test]
fn test_convert_options_defaults() {
    let options = ConvertOptions::default();
    assert_eq!(options.dpi, 300);
    assert!(options.deskew);
    assert!(options.upscale);
    assert!(!options.ocr);
    assert!(!options.advanced);
}

#[test]
fn test_job_lifecycle_to_completed() {
    let mut job = queued_job(1, "scan.pdf");
    assert_eq!(job.status, JobStatus::Queued);
    assert!(job.start(1_100));
    assert_eq!(job.status, JobStatus::Processing);
    assert_eq!(job.started_at, Some(1_100));
    assert!(job.complete("out.pdf".to_string(), 1_200));
    assert_eq!(job.status, JobStatus::Completed);
    assert_eq!(job.completed_at, Some(1_200));
    assert_eq!(job.output_path.as_deref(), Some("out.pdf"));
}

#[test]
fn test_job_terminal_states_are_sticky() {
    let mut job = queued_job(2, "scan.pdf");
    job.start(1_100);
    job.complete("out.pdf".to_string(), 1_200);
    let before = job.status;
    assert!(!job.start(1_300));
    assert!(!job.fail("late".to_string(), 1_300));
    assert!(!job.cancel(1_300));
    assert!(!job.complete("other.pdf".to_string(), 1_300));
    assert_eq!(job.status, before);
    assert_eq!(job.output_path.as_deref(), Some("out.pdf"));
    assert_eq!(job.completed_at, Some(1_200));
}

#[test]
fn test_job_cancel_from_queued() {
    let mut job = queued_job(3, "scan.pdf");
    assert!(job.cancel(1_050));
    assert_eq!(job.status, JobStatus::Cancelled);
    assert_eq!(job.completed_at, Some(1_050));
    assert_eq!(job.started_at, None);
}

#[test]
fn test_job_fail_from_queued_and_processing() {
    let mut a = queued_job(4, "a.pdf");
    assert!(a.fail("bad input".to_string(), 1_050));
    assert_eq!(a.status, JobStatus::Failed);
    assert_eq!(a.error.as_deref(), Some("bad input"));

    let mut b = queued_job(5, "b.pdf");
    b.start(1_100);
    assert!(b.fail("stage exploded".to_string(), 1_150));
    assert_eq!(b.status, JobStatus::Failed);
    assert_eq!(b.completed_at, Some(1_150));
}

#[test]
fn test_job_progress_only_while_processing() {
    let mut job = queued_job(6, "scan.pdf");
    assert!(!job.update_progress(Progress::new(1, 12, "too early")));
    assert!(job.progress.is_none());
    job.start(1_100);
    assert!(job.update_progress(Progress::new(3, 12, "Deskew Detection")));
    assert_eq!(job.progress.as_ref().unwrap().current_step, 3);
    job.cancel(1_200);
    assert!(!job.update_progress(Progress::new(4, 12, "too late")));
    assert_eq!(job.progress.as_ref().unwrap().current_step, 3);
}

#[test]
fn test_queue_submit_get_and_list() {
    let mut queue = JobQueue::new();
    assert_eq!(queue.list().len(), 0);
    for i in 0..3u128 {
        queue.submit(queued_job(i, &format!("file{}.pdf", i))).unwrap();
    }
    let jobs = queue.list();
    assert_eq!(jobs.len(), 3);
    for job in &jobs {
        assert_eq!(job.status, JobStatus::Queued);
    }
    let second = queue.get(1).unwrap();
    assert_eq!(second.input_filename, "file1.pdf");
    assert!(queue.get(99).is_none());
}

#[test]
fn test_queue_rejects_duplicate_id() {
    let mut queue = JobQueue::new();
    queue.submit(queued_job(7, "a.pdf")).unwrap();
    let r = queue.submit(queued_job(7, "b.pdf"));
    assert!(matches!(r, Err(EngineError::DuplicateId)));
    assert_eq!(queue.len(), 1);
}

#[test]
fn test_queue_update_applies_one_transition() {
    let mut queue = JobQueue::new();
    queue.submit(queued_job(8, "a.pdf")).unwrap();
    let snap = queue.update(8, JobMutation::Start, 1_100).unwrap();
    assert_eq!(snap.status, JobStatus::Processing);
    let snap = queue
        .update(8, JobMutation::Complete("done.pdf".to_string()), 1_200)
        .unwrap();
    assert_eq!(snap.status, JobStatus::Completed);
    assert_eq!(snap.output_path.as_deref(), Some("done.pdf"));
    assert!(queue.update(99, JobMutation::Start, 1_300).is_none());
}

#[test]
fn test_queue_cancel_returns_snapshot() {
    let mut queue = JobQueue::new();
    queue.submit(queued_job(9, "a.pdf")).unwrap();
    let cancelled = queue.cancel(9, 1_100).unwrap();
    assert_eq!(cancelled.status, JobStatus::Cancelled);
    assert_eq!(queue.get(9).unwrap().status, JobStatus::Cancelled);
}

#[test]
fn test_queue_retry_links_lineage() {
    let mut queue = JobQueue::new();
    queue.submit(queued_job(10, "orig.pdf")).unwrap();
    queue.update(10, JobMutation::Fail("boom".to_string()), 1_100);
    let retried = queue.retry(10, 11, 2_000).unwrap();
    assert_eq!(retried.id, 11);
    assert_eq!(retried.input_filename, "orig.pdf");
    assert_eq!(retried.status, JobStatus::Queued);
    assert_eq!(retried.retry_of, Some(10));
    assert!(matches!(queue.retry(99, 12, 2_100), Err(EngineError::NotFound)));
    assert!(matches!(queue.retry(10, 11, 2_200), Err(EngineError::DuplicateId)));
}

#[test]
fn test_history_filters_terminal_jobs() {
    let mut queue = JobQueue::new();
    queue.submit(queued_job(20, "a.pdf")).unwrap();
    queue.submit(queued_job(21, "b.pdf")).unwrap();
    queue.submit(queued_job(22, "c.pdf")).unwrap();
    queue.update(20, JobMutation::Start, 1_100);
    queue.update(20, JobMutation::Complete("a.out".to_string()), 1_500);
    queue.update(21, JobMutation::Fail("bad".to_string()), 2_500);

    let all_terminal = query_history(
        &queue,
        &HistoryQuery { status: None, completed_after: None, completed_before: None },
    );
    assert_eq!(all_terminal.len(), 2);

    let failed_only = query_history(
        &queue,
        &HistoryQuery {
            status: Some(JobStatus::Failed),
            completed_after: None,
            completed_before: None,
        },
    );
    assert_eq!(failed_only.len(), 1);
    assert_eq!(failed_only[0].id, 21);

    let early = query_history(
        &queue,
        &HistoryQuery { status: None, completed_after: None, completed_before: Some(2_000) },
    );
    assert_eq!(early.len(), 1);
    assert_eq!(early[0].id, 20);

    let late = query_history(
        &queue,
        &HistoryQuery { status: None, completed_after: Some(2_000), completed_before: None },
    );
    assert_eq!(late.len(), 1);
    assert_eq!(late[0].id, 21);
}

#[test]
fn test_fresh_ids_are_usable() {
    let mut queue = JobQueue::new();
    let job = Job::create("auto.pdf", ConvertOptions::default(), 3_000);
    let id = job.id;
    queue.submit(job).unwrap();
    assert_eq!(queue.get(id).unwrap().input_filename, "auto.pdf");
}
