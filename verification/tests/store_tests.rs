use superbook_pdf::batch::BatchJob;
use superbook_pdf::batch::Priority;
use superbook_pdf::job::ConvertOptions;
use superbook_pdf::job::Job;
use superbook_pdf::job::JobStatus;
use superbook_pdf::job::Progress;
use superbook_pdf::store::decode_batch;
use superbook_pdf::store::decode_job;
use superbook_pdf::store::encode_batch;
use superbook_pdf::store::encode_job;
use superbook_pdf::store::RECORD_VERSION;

fn full_job() -> Job {
    let mut job = Job::new(
        0x1234_5678_9abc_def0_1122_3344_5566_7788,
        "scan-θ.pdf".to_string(),
        ConvertOptions { dpi: 600, deskew: false, upscale: true, ocr: true, advanced: false },
        1_000,
    );
    job.retry_of = Some(42);
    job.start(1_100);
    job.update_progress(Progress::new(5, 12, "Normalization"));
    job.fail("stage exploded".to_string(), 1_900);
    job
}

fn assert_same_job(a: &Job, b: &Job) {
    assert_eq!(a.id, b.id);
    assert_eq!(a.input_filename, b.input_filename);
    assert_eq!(a.options, b.options);
    assert_eq!(a.status, b.status);
    assert_eq!(a.created_at, b.created_at);
    assert_eq!(a.started_at, b.started_at);
    assert_eq!(a.completed_at, b.completed_at);
    assert_eq!(a.output_path, b.output_path);
    assert_eq!(a.error, b.error);
    assert_eq!(a.retry_of, b.retry_of);
    match (&a.progress, &b.progress) {
        (Some(x), Some(y)) => {
            assert_eq!(x.current_step, y.current_step);
            assert_eq!(x.total_steps, y.total_steps);
            assert_eq!(x.percent, y.percent);
            assert_eq!(x.step_name, y.step_name);
        }
        (None, None) => {}
        _ => panic!("progress mismatch"),
    }
}

#[test]
fn test_record_round_trip_failed_job() {
    let job = full_job();
    let bytes = encode_job(&job);
    let decoded = decode_job(&bytes).expect("a fresh record must decode");
    assert_same_job(&job, &decoded);
}

#[test]
fn test_record_round_trip_queued_job() {
    let job = Job::new(7, "plain.pdf".to_string(), ConvertOptions::default(), 5);
    let bytes = encode_job(&job);
    let decoded = decode_job(&bytes).expect("a fresh record must decode");
    assert_same_job(&job, &decoded);
}

#[test]
fn test_record_round_trip_completed_job() {
    let mut job = Job::new(9, "done.pdf".to_string(), ConvertOptions::default(), 5);
    job.start(10);
    job.complete("done.out.pdf".to_string(), 20);
    let decoded = decode_job(&encode_job(&job)).expect("a fresh record must decode");
    assert_same_job(&job, &decoded);
}

#[test]
fn test_record_tolerates_unknown_extension() {
    // A later version may append fields; this reader must ignore them.
    let job = full_job();
    let mut bytes = encode_job(&job);
    let n = bytes.len();
    bytes[n - 8..].copy_from_slice(&3u64.to_le_bytes());
    bytes.extend_from_slice(&[0xde, 0xad, 0xbe]);
    let decoded = decode_job(&bytes).expect("extension bytes must be ignored");
    assert_same_job(&job, &decoded);
}

#[test]
fn test_record_rejects_truncation() {
    let bytes = encode_job(&full_job());
    assert!(decode_job(&bytes[..bytes.len() - 1]).is_none());
    assert!(decode_job(&bytes[..40]).is_none());
    assert!(decode_job(&[]).is_none());
}

#[test]
fn test_record_rejects_unknown_version() {
    let mut bytes = encode_job(&full_job());
    bytes[0] = RECORD_VERSION + 1;
    assert!(decode_job(&bytes).is_none());
}

#[test]
fn test_record_rejects_unknown_status() {
    let mut bytes = encode_job(&full_job());
    bytes[17] = 9;
    assert!(decode_job(&bytes).is_none());
}

#[test]
fn test_record_rejects_invariant_breakage() {
    // A processing job whose start stamp was wiped breaks the job
    // invariant and must not load.
    let mut job = Job::new(3, "mid.pdf".to_string(), ConvertOptions::default(), 5);
    job.start(10);
    let mut bytes = encode_job(&job);
    bytes[34] = 0;
    assert!(decode_job(&bytes).is_none());
}

#[test]
fn test_record_rejects_trailing_garbage() {
    // Extra bytes not declared by the extension length are refused.
    let mut bytes = encode_job(&full_job());
    bytes.push(0);
    assert!(decode_job(&bytes).is_none());
}

#[test]
fn test_batch_record_round_trip() {
    let mut batch = BatchJob::new(
        0xfeed_beef,
        ConvertOptions { dpi: 150, deskew: true, upscale: false, ocr: false, advanced: true },
        Priority::High,
        2_000,
    );
    batch.job_ids = vec![1, 2, 3, u128::MAX];
    batch.start(2_100);
    let bytes = encode_batch(&batch);
    let decoded = decode_batch(&bytes).expect("a fresh batch record must decode");
    assert_eq!(decoded.id, batch.id);
    assert_eq!(decoded.options, batch.options);
    assert_eq!(decoded.priority, Priority::High);
    assert_eq!(decoded.status, batch.status);
    assert_eq!(decoded.job_ids, batch.job_ids);
    assert_eq!(decoded.created_at, 2_000);
    assert_eq!(decoded.started_at, Some(2_100));
}

#[test]
fn test_batch_record_rejects_duplicate_ids() {
    let mut batch = BatchJob::new(5, ConvertOptions::default(), Priority::Normal, 2_000);
    batch.job_ids = vec![1, 2];
    let mut bytes = encode_batch(&batch);
    // Overwrite the second id with the first: the loaded list must stay
    // duplicate-free, so the record is refused.
    let second = 52 + 16;
    let first16: Vec<u8> = bytes[52..52 + 16].to_vec();
    bytes[second..second + 16].copy_from_slice(&first16);
    assert!(decode_batch(&bytes).is_none());
}

#[test]
fn test_batch_record_rejects_truncated_id_list() {
    let mut batch = BatchJob::new(5, ConvertOptions::default(), Priority::Normal, 2_000);
    batch.job_ids = vec![1, 2, 3];
    let bytes = encode_batch(&batch);
    assert!(decode_batch(&bytes[..bytes.len() - 9]).is_none());
}
