use ao3fti::pipeline::{
    parse_worker_count, per_thread_buffer, run_outcome, ChapterLine, IndexRun,
    CHAPTER_QUEUE_CAPACITY, PROGRESS_GROUP, WRITER_MEMORY, WRITER_THREADS,
};

#[test]
fn writer_failure_rolls_the_whole_batch_back() {
    // a quarter-million records with the writer dying at document 200,000:
    // nothing becomes visible and the run reports failure
    let total = 250_000u64;
    let mut run = IndexRun::new();
    let mut i = 0u64;
    while i < total {
        if i == 200_000 {
            run.record_write_error();
            break;
        }
        run.record_added();
        i += 1;
    }
    assert!(run.is_failed());
    assert_eq!(run.visible_docs(), 0);
}

#[test]
fn successful_run_commits_the_whole_batch_once() {
    let mut run = IndexRun::new();
    for _ in 0..1_000 {
        run.record_added();
    }
    assert_eq!(run.visible_docs(), 0);
    run.record_commit(true);
    assert_eq!(run.visible_docs(), 1_000);
    assert!(!run.is_failed());
}

#[test]
fn failed_commit_leaves_nothing_visible() {
    let mut run = IndexRun::new();
    for _ in 0..10 {
        run.record_added();
    }
    run.record_commit(false);
    assert!(run.is_failed());
    assert_eq!(run.visible_docs(), 0);
}

#[test]
fn conversion_failure_is_not_fatal() {
    let mut run = IndexRun::new();
    run.record_added();
    run.record_conversion_failure();
    run.record_added();
    assert!(!run.is_failed());
    assert_eq!(run.dropped, 1);
    assert_eq!(run.added, 2);
}

#[test]
fn progress_is_logged_every_group() {
    let mut run = IndexRun::new();
    let mut logs = 0usize;
    for _ in 0..200_001u64 {
        if run.record_added() {
            logs += 1;
        }
    }
    // once at 100,000 and once at 200,000; never at zero
    assert_eq!(logs, 2);
}

#[test]
fn worker_pool_is_at_least_one() {
    assert_eq!(parse_worker_count(0), 1);
    assert_eq!(parse_worker_count(3), 1);
    assert_eq!(parse_worker_count(4), 1);
    assert_eq!(parse_worker_count(12), 3);
}

#[test]
fn writer_memory_is_split_evenly() {
    assert_eq!(per_thread_buffer(WRITER_MEMORY, WRITER_THREADS), WRITER_MEMORY / 3);
}

#[test]
fn run_fails_when_either_side_fails() {
    assert!(run_outcome(true, true));
    assert!(!run_outcome(false, true));
    assert!(!run_outcome(true, false));
    assert!(!run_outcome(false, false));
}

#[test]
fn queue_capacity_bounds_inflight_memory() {
    assert_eq!(CHAPTER_QUEUE_CAPACITY, 10_000);
    assert_eq!(PROGRESS_GROUP, 100_000);
}

#[test]
fn chapter_record_carries_its_keys() {
    let c = ChapterLine { story_id: 7, chapter_id: 0, chapter_content: "x".to_string() };
    assert_eq!(c, c.clone());
}
