use oxide::{Action, Coordinator, ProgressError, ProgressEvent};

fn event(worker_id: u16, cumulative_bytes: u64) -> ProgressEvent {
    ProgressEvent { worker_id, cumulative_bytes }
}

#[test]
fn coordinator_first_awaits_progress() {
    let coordinator = Coordinator::new(2, 10);
    assert_eq!(coordinator.next_action(), Action::AwaitProgress);
    assert_eq!(coordinator.downloaded(), 0);
}

#[test]
fn coordinator_awaits_the_barrier_once_all_bytes_are_reported() {
    let mut coordinator = Coordinator::new(2, 10);
    assert_eq!(coordinator.on_progress(event(1, 5)), Ok(5));
    assert_eq!(coordinator.next_action(), Action::AwaitProgress);
    assert_eq!(coordinator.on_progress(event(2, 4)), Ok(9));
    assert_eq!(coordinator.next_action(), Action::AwaitProgress);
    assert_eq!(coordinator.on_progress(event(2, 5)), Ok(10));
    assert_eq!(coordinator.next_action(), Action::AwaitBarrier);
}

#[test]
fn coordinator_joins_only_after_the_barrier() {
    let mut coordinator = Coordinator::new(1, 3);
    assert_eq!(coordinator.on_progress(event(1, 3)), Ok(3));
    assert_eq!(coordinator.next_action(), Action::AwaitBarrier);
    coordinator.on_barrier();
    assert_eq!(coordinator.next_action(), Action::Reassemble);
    coordinator.on_barrier();
    assert_eq!(coordinator.next_action(), Action::Reassemble);
}

#[test]
fn barrier_passed_too_early_counts_for_nothing() {
    let mut coordinator = Coordinator::new(1, 3);
    coordinator.on_barrier();
    assert_eq!(coordinator.next_action(), Action::AwaitProgress);
    assert_eq!(coordinator.on_progress(event(1, 3)), Ok(3));
    assert_eq!(coordinator.next_action(), Action::AwaitBarrier);
}

#[test]
fn nothing_to_fetch_goes_straight_to_the_barrier() {
    let coordinator = Coordinator::new(1, 0);
    assert_eq!(coordinator.next_action(), Action::AwaitBarrier);
}

#[test]
fn refused_event_changes_nothing() {
    let mut coordinator = Coordinator::new(1, 3);
    assert_eq!(
        coordinator.on_progress(event(2, 3)),
        Err(ProgressError::UnknownWorker { worker_id: 2 })
    );
    assert_eq!(coordinator.next_action(), Action::AwaitProgress);
    assert_eq!(coordinator.downloaded(), 0);
}

#[test]
fn late_events_do_not_reopen_the_fetching() {
    let mut coordinator = Coordinator::new(2, 10);
    assert_eq!(coordinator.on_progress(event(1, 10)), Ok(10));
    assert_eq!(coordinator.next_action(), Action::AwaitBarrier);
    assert_eq!(coordinator.on_progress(event(1, 5)), Ok(5));
    assert_eq!(coordinator.next_action(), Action::AwaitBarrier);
    coordinator.on_barrier();
    assert_eq!(coordinator.on_progress(event(2, 5)), Ok(10));
    assert_eq!(coordinator.next_action(), Action::Reassemble);
}
