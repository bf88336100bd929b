use superbook_pdf::parallel::ParallelOptions;
use superbook_pdf::parallel::ParallelResult;

#[test]
fn test_par006_thread_count_options() {
    let options = ParallelOptions::with_threads(4);
    assert_eq!(options.effective_threads(), 4);

    let auto_options = ParallelOptions::default();
    assert!(auto_options.effective_threads() >= 1);
}

#[test]
fn test_par006_zero_threads_uses_cpu_count() {
    let options = ParallelOptions::with_threads(0);
    assert_eq!(options.effective_threads(), num_cpus::get());
}

#[test]
fn test_default_options() {
    let options = ParallelOptions::default();
    assert_eq!(options.num_threads, 0);
    assert_eq!(options.chunk_size, 0);
    assert!(options.continue_on_error);
}

#[test]
fn test_chunk_options() {
    let options = ParallelOptions::with_chunks(5);
    assert_eq!(options.chunk_size, 5);
    assert_eq!(options.num_threads, 0);
}

#[test]
fn test_collect_partitions_outcomes() {
    let outcomes: Vec<(usize, Result<u32, String>)> = vec![
        (0, Ok(10)),
        (1, Err("bad".to_string())),
        (2, Ok(30)),
        (3, Err("worse".to_string())),
    ];
    let result = ParallelResult::collect(outcomes);
    assert_eq!(result.processed_count, 4);
    assert_eq!(result.results, vec![(0, 10), (2, 30)]);
    assert_eq!(
        result.errors,
        vec![(1, "bad".to_string()), (3, "worse".to_string())]
    );
    assert!(!result.is_success());
}

#[test]
fn test_collect_of_nothing_is_success() {
    let result = ParallelResult::<u32>::collect(vec![]);
    assert_eq!(result.processed_count, 0);
    assert!(result.is_success());
}

#[test]
fn test_ordered_results_recover_submission_order() {
    // Completion order is arbitrary; the values come back by input index.
    let result = ParallelResult {
        results: vec![(3, "d"), (0, "a"), (2, "c"), (1, "b")],
        errors: Vec::<(usize, String)>::new(),
        processed_count: 4,
    };
    assert_eq!(result.ordered_results(), vec!["a", "b", "c", "d"]);
}

#[test]
fn test_ordered_results_of_partial_success() {
    let result: ParallelResult<usize> = ParallelResult {
        results: vec![(4, 40), (1, 10)],
        errors: vec![(2, "gone".to_string())],
        processed_count: 5,
    };
    assert_eq!(result.ordered_results(), vec![10, 40]);
}

#[test]
fn test_chunk_bounds_cover_everything() {
    let bounds = superbook_pdf::parallel::chunk_bounds(10, 3);
    assert_eq!(bounds, vec![(0, 3), (3, 6), (6, 9), (9, 10)]);
    assert_eq!(superbook_pdf::parallel::chunk_bounds(10, 0), vec![(0, 10)]);
    assert_eq!(superbook_pdf::parallel::chunk_bounds(0, 3), Vec::<(usize, usize)>::new());
    assert_eq!(superbook_pdf::parallel::chunk_bounds(4, 100), vec![(0, 4)]);
}
