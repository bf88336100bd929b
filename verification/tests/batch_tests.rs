use superbook_pdf::batch::BatchJob;
use superbook_pdf::batch::BatchMutation;
use superbook_pdf::batch::BatchProgress;
use superbook_pdf::batch::BatchQueue;
use superbook_pdf::batch::BatchStatus;
use superbook_pdf::batch::Priority;
use superbook_pdf::job::ConvertOptions;
use superbook_pdf::job::JobMutation;
use superbook_pdf::job::JobStatus;
use superbook_pdf::queue::JobQueue;

fn new_batch(id: u128, priority: Priority) -> BatchJob {
    BatchJob::new(id, ConvertOptions::default(), priority, 1_000)
}

fn filenames(n: usize) -> Vec<String> {
    (0..n).map(|i| format!("file{}.pdf", i)).collect()
}

#[test]
fn test_batch_priority_order() {
    assert!(Priority::High.value() > Priority::Normal.value());
    assert!(Priority::Normal.value() > Priority::Low.value());
    assert_eq!(Priority::default(), Priority::Normal);
}

#[test]
fn test_batch_progress_calculation() {
    let mut progress = BatchProgress::new(10);
    assert_eq!(progress.percent(), 0);
    assert!(!progress.is_complete());

    progress.completed = 5;
    progress.pending = 5;
    assert_eq!(progress.percent(), 50);

    progress.completed = 10;
    progress.pending = 0;
    assert_eq!(progress.percent(), 100);
    assert!(progress.is_complete());
}

#[test]
fn test_batch_progress_empty_batch() {
    let progress = BatchProgress::new(0);
    assert_eq!(progress.percent(), 0);
    assert!(progress.is_complete());
}

#[test]
fn test_batch_queue_registration() {
    let mut batches = BatchQueue::new();
    let batch = new_batch(100, Priority::Normal);
    batches.submit(batch).unwrap();
    let got = batches.get(100).unwrap();
    assert_eq!(got.status, BatchStatus::Queued);
    assert!(batches.get(101).is_none());
}

#[test]
fn test_batch_create_jobs_aligns_names_and_ids() {
    let mut jobs = JobQueue::new();
    let batches = BatchQueue::new();
    let mut batch = new_batch(100, Priority::Normal);
    let names = filenames(3);
    let ids: Vec<u128> = vec![1, 2, 3];
    batches
        .create_jobs_with_ids(&mut batch, &names, &ids, &mut jobs, 1_050)
        .unwrap();
    assert_eq!(batch.job_count(), 3);
    assert_eq!(batch.job_ids, vec![1, 2, 3]);
    for (i, id) in ids.iter().enumerate() {
        let job = jobs.get(*id).unwrap();
        assert_eq!(job.input_filename, names[i]);
        assert_eq!(job.status, JobStatus::Queued);
        assert_eq!(job.options, ConvertOptions::default());
    }
}

#[test]
fn test_batch_create_jobs_refuses_duplicates_whole() {
    let mut jobs = JobQueue::new();
    let batches = BatchQueue::new();
    let mut batch = new_batch(100, Priority::Normal);
    let names = filenames(3);
    let ids: Vec<u128> = vec![1, 2, 2];
    assert!(batches
        .create_jobs_with_ids(&mut batch, &names, &ids, &mut jobs, 1_050)
        .is_err());
    assert_eq!(batch.job_count(), 0);
    assert_eq!(jobs.len(), 0);
}

#[test]
fn test_batch_create_jobs_with_random_ids() {
    let mut jobs = JobQueue::new();
    let batches = BatchQueue::new();
    let mut batch = new_batch(100, Priority::High);
    batches
        .create_jobs(&mut batch, &filenames(5), &mut jobs, 1_050)
        .unwrap();
    assert_eq!(batch.job_count(), 5);
    assert_eq!(jobs.len(), 5);
    for (i, id) in batch.job_ids.iter().enumerate() {
        assert_eq!(jobs.get(*id).unwrap().input_filename, format!("file{}.pdf", i));
    }
}

#[test]
fn test_batch_start_needs_a_job() {
    let mut empty = new_batch(1, Priority::Normal);
    assert!(!empty.start(1_100));
    assert_eq!(empty.status, BatchStatus::Queued);

    let mut jobs = JobQueue::new();
    let batches = BatchQueue::new();
    let mut batch = new_batch(2, Priority::Normal);
    batches
        .create_jobs_with_ids(&mut batch, &filenames(1), &vec![7], &mut jobs, 1_050)
        .unwrap();
    assert!(batch.start(1_100));
    assert_eq!(batch.status, BatchStatus::Processing);
    assert_eq!(batch.started_at, Some(1_100));
    assert!(!batch.start(1_200));
}

#[test]
fn test_batch_active_count() {
    let mut batches = BatchQueue::new();
    let mut jobs = JobQueue::new();
    let mut started = new_batch(1, Priority::Normal);
    batches
        .create_jobs_with_ids(&mut started, &filenames(1), &vec![11], &mut jobs, 1_000)
        .unwrap();
    started.start(1_001);
    batches.submit(started).unwrap();
    batches.submit(new_batch(2, Priority::Low)).unwrap();
    assert_eq!(batches.active_count(), 1);
}

#[test]
fn test_batch_update_start() {
    let mut jobs = JobQueue::new();
    let mut batches = BatchQueue::new();
    let mut batch = new_batch(5, Priority::Normal);
    batches
        .create_jobs_with_ids(&mut batch, &filenames(2), &vec![21, 22], &mut jobs, 1_000)
        .unwrap();
    batches.submit(batch).unwrap();
    let updated = batches.update(5, BatchMutation::Start, 1_100).unwrap();
    assert_eq!(updated.status, BatchStatus::Processing);
    assert_eq!(updated.started_at, Some(1_100));
    let fetched = batches.get(5).unwrap();
    assert_eq!(fetched.status, BatchStatus::Processing);
}

#[test]
fn test_batch_list() {
    let mut batches = BatchQueue::new();
    for (i, priority) in [Priority::Low, Priority::Normal, Priority::High]
        .into_iter()
        .enumerate()
    {
        batches.submit(new_batch(i as u128, priority)).unwrap();
    }
    assert_eq!(batches.list().len(), 3);
}

#[test]
fn test_batch_progress_counts_live_state() {
    // Submit a batch of five jobs, mark two completed and one failed,
    // leave two queued.
    let mut jobs = JobQueue::new();
    let mut batches = BatchQueue::new();
    let mut batch = new_batch(9, Priority::Normal);
    let ids: Vec<u128> = vec![31, 32, 33, 34, 35];
    batches
        .create_jobs_with_ids(&mut batch, &filenames(5), &ids, &mut jobs, 1_000)
        .unwrap();
    batches.submit(batch).unwrap();

    for id in [31u128, 32, 33] {
        jobs.update(id, JobMutation::Start, 1_100);
    }
    jobs.update(31, JobMutation::Complete("a.out".to_string()), 1_200);
    jobs.update(32, JobMutation::Complete("b.out".to_string()), 1_200);
    jobs.update(33, JobMutation::Fail("boom".to_string()), 1_200);

    let progress = batches.get_progress(9, &jobs).unwrap();
    assert_eq!(progress.completed, 2);
    assert_eq!(progress.failed, 1);
    assert_eq!(progress.pending, 2);
    assert_eq!(progress.cancelled, 0);
    assert_eq!(progress.total, 5);
    // The four buckets always partition the batch.
    assert_eq!(
        progress.completed + progress.failed + progress.pending + progress.cancelled,
        progress.total
    );
}

#[test]
fn test_batch_progress_partition_holds_with_cancellations() {
    let mut jobs = JobQueue::new();
    let mut batches = BatchQueue::new();
    let mut batch = new_batch(9, Priority::Normal);
    let ids: Vec<u128> = vec![41, 42, 43, 44];
    batches
        .create_jobs_with_ids(&mut batch, &filenames(4), &ids, &mut jobs, 1_000)
        .unwrap();
    batches.submit(batch).unwrap();
    jobs.cancel(41, 1_100);
    jobs.update(42, JobMutation::Start, 1_100);

    let progress = batches.get_progress(9, &jobs).unwrap();
    assert_eq!(progress.cancelled, 1);
    assert_eq!(progress.pending, 3); // one processing, two queued
    assert_eq!(
        progress.completed + progress.failed + progress.pending + progress.cancelled,
        progress.total
    );
}

#[test]
fn test_batch_cancel_counts_non_terminal() {
    // Five jobs, two already terminal: cancelling reports (3, 2).
    let mut jobs = JobQueue::new();
    let mut batches = BatchQueue::new();
    let mut batch = new_batch(9, Priority::Normal);
    let ids: Vec<u128> = vec![51, 52, 53, 54, 55];
    batches
        .create_jobs_with_ids(&mut batch, &filenames(5), &ids, &mut jobs, 1_000)
        .unwrap();
    batches.submit(batch).unwrap();
    jobs.update(51, JobMutation::Start, 1_100);
    jobs.update(51, JobMutation::Complete("a.out".to_string()), 1_200);
    jobs.update(52, JobMutation::Fail("bad".to_string()), 1_200);

    let (cancelled, already_terminal) = batches.cancel(9, &mut jobs, 2_000).unwrap();
    assert_eq!(cancelled, 3);
    assert_eq!(already_terminal, 2);
    assert_eq!(batches.get(9).unwrap().status, BatchStatus::Cancelled);
    for id in [53u128, 54, 55] {
        assert_eq!(jobs.get(id).unwrap().status, JobStatus::Cancelled);
    }
    assert_eq!(jobs.get(51).unwrap().status, JobStatus::Completed);
    assert_eq!(jobs.get(52).unwrap().status, JobStatus::Failed);
}

#[test]
fn test_batch_cancel_fully_terminal_reports_zero() {
    let mut jobs = JobQueue::new();
    let mut batches = BatchQueue::new();
    let mut batch = new_batch(9, Priority::Normal);
    let ids: Vec<u128> = vec![61, 62];
    batches
        .create_jobs_with_ids(&mut batch, &filenames(2), &ids, &mut jobs, 1_000)
        .unwrap();
    batches.submit(batch).unwrap();
    jobs.update(61, JobMutation::Fail("a".to_string()), 1_100);
    jobs.cancel(62, 1_100);

    let (cancelled, already_terminal) = batches.cancel(9, &mut jobs, 2_000).unwrap();
    assert_eq!(cancelled, 0);
    assert_eq!(already_terminal, 2);
}

#[test]
fn test_batch_cancel_everything_queued() {
    let mut jobs = JobQueue::new();
    let mut batches = BatchQueue::new();
    let mut batch = new_batch(9, Priority::Normal);
    batches
        .create_jobs_with_ids(&mut batch, &filenames(3), &vec![71, 72, 73], &mut jobs, 1_000)
        .unwrap();
    batches.submit(batch).unwrap();
    let (cancelled, already_terminal) = batches.cancel(9, &mut jobs, 2_000).unwrap();
    assert_eq!(cancelled, 3);
    assert_eq!(already_terminal, 0);
    assert!(batches.cancel(999, &mut jobs, 2_000).is_none());
}
