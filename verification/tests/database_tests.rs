use pmr::database::{
    process_record_to_row, row_to_process_record, ProcessRecord, ProcessStatus, StoredProcess,
    Timestamp,
};
use pmr::env::EnvVars;
use pmr::Error;

fn sample() -> ProcessRecord {
    let mut env_vars = EnvVars::new();
    env_vars.insert("ZED".to_string(), "last \"quoted\"".to_string());
    env_vars.insert("ALPHA".to_string(), "first".to_string());
    ProcessRecord {
        id: "0b5c9a52-7f0e-4a7e-9a59-3f1a4c5d6e7f".to_string(),
        name: "job".to_string(),
        command: "sleep".to_string(),
        args: vec!["5".to_string(), "with space".to_string()],
        env_vars,
        working_dir: "/work".to_string(),
        pid: Some(4321),
        status: ProcessStatus::Running,
        created_at: Timestamp { secs: 1_700_000_000, nanos: 123_000_000 },
        updated_at: Timestamp { secs: 1_700_000_060, nanos: 0 },
        log_path: "/logs/job.log".to_string(),
    }
}

fn row() -> StoredProcess {
    StoredProcess {
        id: "id-7".to_string(),
        name: "job".to_string(),
        command: "echo".to_string(),
        args: "[\"a\",\"b\"]".to_string(),
        env_vars: "{\"K\":\"v\"}".to_string(),
        working_dir: "/w".to_string(),
        pid: Some(77),
        status: "stopped".to_string(),
        created_at: "2024-01-02T03:04:05+00:00".to_string(),
        updated_at: "2024-01-02T04:04:05.5+01:00".to_string(),
        log_path: "/l/job.log".to_string(),
    }
}

#[test]
fn status_words_are_read_and_written() {
    assert_eq!(ProcessStatus::Running.to_string(), "running");
    assert_eq!(ProcessStatus::Stopped.to_string(), "stopped");
    assert_eq!(ProcessStatus::Failed.to_string(), "failed");
    assert_eq!(ProcessStatus::Unknown.to_string(), "unknown");
    assert_eq!(ProcessStatus::Failed.as_str(), "failed");
    for status in [
        ProcessStatus::Running,
        ProcessStatus::Stopped,
        ProcessStatus::Failed,
        ProcessStatus::Unknown,
    ] {
        assert_eq!(ProcessStatus::parse(status.as_str()), status);
    }
    assert_eq!(ProcessStatus::parse("Running"), ProcessStatus::Unknown);
    assert_eq!(ProcessStatus::parse(""), ProcessStatus::Unknown);
    assert!(ProcessStatus::Stopped.finished());
    assert!(ProcessStatus::Failed.finished());
    assert!(!ProcessStatus::Running.finished());
    assert!(!ProcessStatus::Unknown.finished());
}

#[test]
fn record_is_written_as_columns() {
    let row = process_record_to_row(&sample()).unwrap();
    assert_eq!(row.id, "0b5c9a52-7f0e-4a7e-9a59-3f1a4c5d6e7f");
    assert_eq!(row.name, "job");
    assert_eq!(row.command, "sleep");
    assert_eq!(row.args, "[\"5\",\"with space\"]");
    assert_eq!(row.env_vars, "{\"ZED\":\"last \\\"quoted\\\"\",\"ALPHA\":\"first\"}");
    assert_eq!(row.working_dir, "/work");
    assert_eq!(row.pid, Some(4321));
    assert_eq!(row.status, "running");
    assert_eq!(row.created_at, "2023-11-14T22:13:20.123+00:00");
    assert_eq!(row.updated_at, "2023-11-14T22:14:20+00:00");
    assert_eq!(row.log_path, "/logs/job.log");
}

#[test]
fn columns_are_read_as_a_record() {
    let record = row_to_process_record(row()).unwrap();
    assert_eq!(record.id, "id-7");
    assert_eq!(record.name, "job");
    assert_eq!(record.command, "echo");
    assert_eq!(record.args, vec!["a".to_string(), "b".to_string()]);
    assert_eq!(record.env_vars.get("K"), Some(&"v".to_string()));
    assert_eq!(record.env_vars.len(), 1);
    assert_eq!(record.working_dir, "/w");
    assert_eq!(record.pid, Some(77));
    assert_eq!(record.status, ProcessStatus::Stopped);
    assert_eq!(record.created_at, Timestamp { secs: 1_704_164_645, nanos: 0 });
    assert_eq!(record.updated_at, Timestamp { secs: 1_704_164_645, nanos: 500_000_000 });
    assert_eq!(record.log_path, "/l/job.log");
}

#[test]
fn record_survives_the_store() {
    let record = sample();
    let back = row_to_process_record(process_record_to_row(&record).unwrap()).unwrap();
    assert_eq!(back.args, record.args);
    assert_eq!(back.env_vars.len(), 2);
    assert_eq!(back.env_vars.get("ZED"), record.env_vars.get("ZED"));
    assert_eq!(back.env_vars.get("ALPHA"), record.env_vars.get("ALPHA"));
    assert_eq!(back.created_at, record.created_at);
    assert_eq!(back.updated_at, record.updated_at);
    assert_eq!(back.status, record.status);
    assert_eq!(back.pid, record.pid);
    assert_eq!(back.id, record.id);
}

#[test]
fn empty_arguments_and_variables_survive_the_store() {
    let mut record = sample();
    record.args = Vec::new();
    record.env_vars = EnvVars::new();
    record.pid = None;
    let row = process_record_to_row(&record).unwrap();
    assert_eq!(row.args, "[]");
    assert_eq!(row.env_vars, "{}");
    assert_eq!(row.pid, None);
    let back = row_to_process_record(row).unwrap();
    assert!(back.args.is_empty());
    assert!(back.env_vars.is_empty());
    assert_eq!(back.pid, None);
}

#[test]
fn unknown_status_word_reads_as_unknown() {
    let mut odd = row();
    odd.status = "sleeping".to_string();
    assert_eq!(row_to_process_record(odd).unwrap().status, ProcessStatus::Unknown);
}

#[test]
fn unreadable_columns_are_failures() {
    let mut bad_args = row();
    bad_args.args = "not json".to_string();
    match row_to_process_record(bad_args) {
        Err(Error::SerializationError(text)) => assert!(text.contains("line 1")),
        other => panic!("unexpected {:?}", other),
    }

    let mut bad_env = row();
    bad_env.env_vars = "[1,2]".to_string();
    assert!(matches!(row_to_process_record(bad_env), Err(Error::SerializationError(_))));

    let mut bad_created = row();
    bad_created.created_at = "yesterday".to_string();
    match row_to_process_record(bad_created) {
        Err(Error::Other(text)) => {
            assert!(text.starts_with("Failed to parse created_at: "));
            assert!(text.len() > "Failed to parse created_at: ".len());
        }
        other => panic!("unexpected {:?}", other),
    }

    let mut bad_updated = row();
    bad_updated.updated_at = "2024-13-01T00:00:00Z".to_string();
    match row_to_process_record(bad_updated) {
        Err(Error::Other(text)) => assert!(text.starts_with("Failed to parse updated_at: ")),
        other => panic!("unexpected {:?}", other),
    }
}

#[test]
fn pid_column_is_cut_to_32_bits() {
    let mut wide = row();
    wide.pid = Some(4_294_967_296 + 5);
    assert_eq!(row_to_process_record(wide).unwrap().pid, Some(5));
    let mut negative = row();
    negative.pid = Some(-1);
    assert_eq!(row_to_process_record(negative).unwrap().pid, Some(u32::MAX));
}

#[test]
fn records_clone_as_they_are() {
    let record = sample();
    assert_eq!(record.clone(), record);
}

#[test]
fn variables_keep_one_value_per_name() {
    let pairs = vec![
        ("A".to_string(), "1".to_string()),
        ("B".to_string(), "2".to_string()),
        ("A".to_string(), "3".to_string()),
    ];
    let env = EnvVars::from_pairs(&pairs);
    assert_eq!(env.len(), 2);
    assert_eq!(env.get("A"), Some(&"3".to_string()));
    assert_eq!(env.get("B"), Some(&"2".to_string()));
    assert_eq!(env.clone(), env);
    assert!(!env.is_empty());
}

#[test]
fn instants_out_of_range_cannot_be_written() {
    let mut record = sample();
    record.created_at = Timestamp { secs: 0, nanos: 3_000_000_000 };
    assert_eq!(
        process_record_to_row(&record),
        Err(Error::Other("Failed to write created_at: instant out of range".to_string()))
    );
    let mut late = sample();
    late.updated_at = Timestamp { secs: i64::MAX, nanos: 0 };
    assert_eq!(
        process_record_to_row(&late),
        Err(Error::Other("Failed to write updated_at: instant out of range".to_string()))
    );
    let mut early = sample();
    early.created_at = Timestamp { secs: 0, nanos: 0 };
    assert_eq!(process_record_to_row(&early).unwrap().created_at, "1970-01-01T00:00:00+00:00");
}
