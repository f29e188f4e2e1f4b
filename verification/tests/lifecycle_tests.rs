use pmr::database::{ProcessRecord, ProcessStatus, StatusUpdate, Timestamp};
use pmr::env::EnvVars;
use pmr::lifecycle::{reconcile_status, status_after_grace};

fn record(status: ProcessStatus, pid: Option<u32>) -> ProcessRecord {
    ProcessRecord {
        id: "id-1".to_string(),
        name: "job".to_string(),
        command: "sleep".to_string(),
        args: vec!["5".to_string()],
        env_vars: EnvVars::new(),
        working_dir: "/work".to_string(),
        pid,
        status,
        created_at: Timestamp { secs: 10, nanos: 0 },
        updated_at: Timestamp { secs: 10, nanos: 0 },
        log_path: "/logs/job.log".to_string(),
    }
}

const ALL: [ProcessStatus; 4] = [
    ProcessStatus::Running,
    ProcessStatus::Stopped,
    ProcessStatus::Failed,
    ProcessStatus::Unknown,
];

#[test]
fn first_status_follows_the_probe() {
    assert_eq!(status_after_grace(true), ProcessStatus::Running);
    assert_eq!(status_after_grace(false), ProcessStatus::Stopped);
}

#[test]
fn reconciliation_follows_the_probe_but_keeps_failed() {
    for status in ALL {
        let expected_alive =
            if status == ProcessStatus::Failed { status } else { ProcessStatus::Running };
        let expected_dead =
            if status == ProcessStatus::Failed { status } else { ProcessStatus::Stopped };
        assert_eq!(reconcile_status(status, Some(7), true), expected_alive);
        assert_eq!(reconcile_status(status, Some(7), false), expected_dead);
    }
}

#[test]
fn reconciliation_fails_a_record_without_pid() {
    for status in ALL {
        assert_eq!(reconcile_status(status, None, true), ProcessStatus::Failed);
        assert_eq!(reconcile_status(status, None, false), ProcessStatus::Failed);
    }
}

#[test]
fn reconciliation_is_idempotent() {
    for status in ALL {
        for pid in [None, Some(1u32)] {
            for alive in [true, false] {
                let once = reconcile_status(status, pid, alive);
                assert_eq!(reconcile_status(once, pid, alive), once);
            }
        }
    }
}

#[test]
fn record_reconciliation_asks_for_a_write_only_on_change() {
    let mut running = record(ProcessStatus::Running, Some(9));
    assert_eq!(running.reconcile(true), None);
    assert_eq!(running.status, ProcessStatus::Running);
    assert_eq!(
        running.reconcile(false),
        Some(StatusUpdate {
            name: "job".to_string(),
            status: ProcessStatus::Stopped,
            pid: Some(9)
        })
    );
    assert_eq!(running.status, ProcessStatus::Stopped);
    assert_eq!(running.reconcile(false), None);
    assert_eq!(running.updated_at, Timestamp { secs: 10, nanos: 0 });

    let mut pidless = record(ProcessStatus::Running, None);
    assert_eq!(
        pidless.reconcile(true),
        Some(StatusUpdate { name: "job".to_string(), status: ProcessStatus::Failed, pid: None })
    );
    assert_eq!(pidless.reconcile(true), None);
}
