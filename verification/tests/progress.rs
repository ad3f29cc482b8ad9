use oxide::fetch::ProgressEvent;
use oxide::progress::{ProgressAggregator, ProgressError};

fn event(worker_id: u16, cumulative_bytes: u64) -> ProgressEvent {
    ProgressEvent { worker_id, cumulative_bytes }
}

#[test]
fn aggregator_starts_at_zero() {
    let aggregator = ProgressAggregator::new(4, 100);
    assert_eq!(aggregator.downloaded(), 0);
    assert_eq!(aggregator.total_size(), 100);
    assert!(!aggregator.is_complete());
}

#[test]
fn aggregator_for_nothing_is_complete() {
    assert!(ProgressAggregator::new(1, 0).is_complete());
}

#[test]
fn event_overwrites_the_count_of_its_worker() {
    let mut aggregator = ProgressAggregator::new(4, 100);
    assert_eq!(aggregator.record(event(1, 10)), Ok(10));
    assert_eq!(aggregator.record(event(3, 5)), Ok(15));
    assert_eq!(aggregator.record(event(1, 25)), Ok(30));
    assert_eq!(aggregator.record(event(4, 25)), Ok(55));
    assert_eq!(aggregator.downloaded(), 55);
}

#[test]
fn download_is_complete_when_the_sum_reaches_the_size() {
    let mut aggregator = ProgressAggregator::new(2, 10);
    assert_eq!(aggregator.record(event(1, 5)), Ok(5));
    assert!(!aggregator.is_complete());
    assert_eq!(aggregator.record(event(2, 4)), Ok(9));
    assert!(!aggregator.is_complete());
    assert_eq!(aggregator.record(event(2, 5)), Ok(10));
    assert!(aggregator.is_complete());
}

#[test]
fn sum_never_falls_while_workers_count_on() {
    let mut aggregator = ProgressAggregator::new(3, 3000);
    let mut last = 0;
    let events = [(1, 100), (2, 50), (1, 100), (3, 1), (2, 900), (1, 1000), (3, 1000), (2, 1000)];
    for (worker_id, bytes) in events {
        let downloaded = aggregator.record(event(worker_id, bytes)).unwrap();
        assert!(downloaded >= last);
        assert!(downloaded <= 3000);
        last = downloaded;
    }
    assert_eq!(last, 3000);
    assert!(aggregator.is_complete());
}

#[test]
fn unknown_worker_is_refused() {
    let mut aggregator = ProgressAggregator::new(2, 10);
    assert_eq!(
        aggregator.record(event(0, 1)),
        Err(ProgressError::UnknownWorker { worker_id: 0 })
    );
    assert_eq!(
        aggregator.record(event(3, 1)),
        Err(ProgressError::UnknownWorker { worker_id: 3 })
    );
    assert_eq!(aggregator.downloaded(), 0);
}

#[test]
fn sum_out_of_range_is_refused() {
    let mut aggregator = ProgressAggregator::new(2, 10);
    assert_eq!(aggregator.record(event(1, u64::MAX)), Ok(u64::MAX));
    assert_eq!(aggregator.record(event(2, 1)), Err(ProgressError::Overflow));
    assert_eq!(aggregator.downloaded(), u64::MAX);
    assert_eq!(aggregator.record(event(1, u64::MAX - 1)), Ok(u64::MAX - 1));
    assert_eq!(aggregator.record(event(2, 1)), Ok(u64::MAX));
}

#[test]
fn aggregator_without_workers_knows_none() {
    let mut aggregator = ProgressAggregator::new(0, 10);
    assert_eq!(
        aggregator.record(event(1, 1)),
        Err(ProgressError::UnknownWorker { worker_id: 1 })
    );
}

#[test]
fn progress_errors_name_stage_and_worker() {
    assert_eq!(
        ProgressError::UnknownWorker { worker_id: 7 }.describe(),
        "fetch: progress of unknown worker 7"
    );
    assert_eq!(
        ProgressError::Overflow.describe(),
        "fetch: more bytes reported than can be counted"
    );
}
