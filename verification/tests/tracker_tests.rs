use pmr::tracker::{PollOutcome, Tracker, REAP_INTERVAL_SECS};

#[test]
fn tracker_holds_one_handle_per_pid() {
    let mut tracker: Tracker<&str> = Tracker::new();
    assert_eq!(tracker.len(), 0);
    assert_eq!(tracker.track(10, "first"), None);
    assert_eq!(tracker.track(11, "other"), None);
    assert_eq!(tracker.track(10, "second"), Some("first"));
    assert_eq!(tracker.len(), 2);
    assert!(tracker.is_tracking(10));
    assert!(!tracker.is_tracking(12));
    assert_eq!(tracker.take(10), Some("second"));
    assert_eq!(tracker.take(10), None);
    assert!(tracker.untrack(11));
    assert!(!tracker.untrack(11));
    assert_eq!(tracker.len(), 0);
}

#[test]
fn reaper_keeps_only_the_running() {
    let mut tracker: Tracker<String> = Tracker::new();
    tracker.track(1, "one".to_string());
    tracker.track(2, "two".to_string());
    tracker.track(3, "three".to_string());
    let mut pids = tracker.pids();
    pids.sort();
    assert_eq!(pids, vec![1, 2, 3]);
    for pid in pids {
        let handle = tracker.take(pid).unwrap();
        let outcome = match pid {
            1 => PollOutcome::Exited,
            2 => PollOutcome::Running,
            _ => PollOutcome::Failed,
        };
        assert_eq!(tracker.settle(pid, handle, outcome), pid != 2);
    }
    assert_eq!(tracker.pids(), vec![2]);
    assert_eq!(tracker.take(2), Some("two".to_string()));
}

#[test]
fn reaper_lets_go_of_what_it_cannot_check() {
    assert!(Tracker::<u8>::should_reap(PollOutcome::Exited));
    assert!(Tracker::<u8>::should_reap(PollOutcome::Failed));
    assert!(!Tracker::<u8>::should_reap(PollOutcome::Running));
    assert_eq!(REAP_INTERVAL_SECS, 5);
}
