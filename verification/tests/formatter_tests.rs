use pmr::cli::OutputFormat;
use pmr::database::{ProcessRecord, ProcessStatus, Timestamp};
use pmr::env::EnvVars;
use pmr::formatter::{Formatter, Rendered};
use pmr::process::ClearResult;

fn record(name: &str, status: ProcessStatus, pid: Option<u32>) -> ProcessRecord {
    ProcessRecord {
        id: "id".to_string(),
        name: name.to_string(),
        command: "sleep".to_string(),
        args: vec!["5".to_string(), "6".to_string()],
        env_vars: EnvVars::new(),
        working_dir: "/work".to_string(),
        pid,
        status,
        created_at: Timestamp { secs: 1_700_000_000, nanos: 0 },
        updated_at: Timestamp { secs: 1_700_000_060, nanos: 0 },
        log_path: "/logs/job.log".to_string(),
    }
}

fn result(cleared: &[&str], failed: &[&str], operation: &str) -> ClearResult {
    ClearResult {
        cleared_count: cleared.len(),
        cleared_processes: cleared.iter().map(|s| s.to_string()).collect(),
        failed_processes: failed.iter().map(|s| s.to_string()).collect(),
        operation_type: operation.to_string(),
    }
}

#[test]
fn clear_result_lists_the_cleared() {
    let formatter = Formatter::new(OutputFormat::Text);
    assert_eq!(
        formatter.format_clear_result_text(&result(&["a", "b"], &[], "all processes")),
        "Cleared 2 all processes (2 processes):\n  - a\n  - b"
    );
    assert_eq!(
        formatter.format_clear_result(&result(&["a"], &[], "stopped/failed processes")),
        Rendered::Text("Cleared 1 stopped/failed processes (1 processes):\n  - a".to_string())
    );
}

#[test]
fn clear_result_of_nothing_says_so() {
    let formatter = Formatter::new(OutputFormat::Text);
    assert_eq!(
        formatter.format_clear_result_text(&result(&[], &[], "stopped/failed processes")),
        "No stopped/failed processes to clear."
    );
}

#[test]
fn clear_result_lists_the_failed() {
    let formatter = Formatter::new(OutputFormat::Text);
    assert_eq!(
        formatter.format_clear_result_text(&result(&["a"], &["x", "y"], "all processes")),
        "Cleared 1 all processes (1 processes):\n  - a\n\nFailed to clear 2 processes:\n  - x\n  - y"
    );
    assert_eq!(
        formatter.format_clear_result_text(&result(&[], &["x "], "all processes")),
        "No all processes to clear.\nFailed to clear 1 processes:\n  - x"
    );
}

#[test]
fn json_is_left_to_the_caller() {
    let formatter = Formatter::new(OutputFormat::Json);
    assert_eq!(formatter.format(), OutputFormat::Json);
    assert_eq!(formatter.format_clear_result(&result(&["a"], &[], "all processes")), Rendered::Json);
    assert_eq!(formatter.format_success_message("done"), Rendered::Json);
    assert_eq!(formatter.format_error_message("no"), Rendered::Json);
    assert_eq!(formatter.format_empty_list_message("none"), Rendered::Json);
    assert_eq!(formatter.format_process_logs("text", "job"), Rendered::Json);
    assert_eq!(formatter.format_rotated_logs(&Vec::new(), "job"), Rendered::Json);
    assert_eq!(formatter.format_process_list(&Vec::new()), Rendered::Json);
    assert_eq!(
        formatter.format_process_status(&record("job", ProcessStatus::Running, Some(1))),
        Rendered::Json
    );
}

#[test]
fn messages_and_logs_are_shown_as_they_are() {
    let formatter = Formatter::new(OutputFormat::Text);
    assert_eq!(formatter.format_success_message("done"), Rendered::Text("done".to_string()));
    assert_eq!(formatter.format_error_message("no"), Rendered::Text("no".to_string()));
    assert_eq!(
        formatter.format_empty_list_message("No processes found."),
        Rendered::Text("No processes found.".to_string())
    );
    assert_eq!(
        formatter.format_process_logs("line 1\nline 2\n", "job"),
        Rendered::Text("line 1\nline 2\n".to_string())
    );
}

#[test]
fn rotated_logs_are_joined_or_missed() {
    let formatter = Formatter::new(OutputFormat::Text);
    assert_eq!(
        formatter.format_rotated_logs(&Vec::new(), "job"),
        Rendered::Text("No rotated log files found for process 'job'".to_string())
    );
    assert_eq!(
        formatter.format_rotated_logs(&vec!["=== a ===\nx".to_string(), "=== b ===\ny".to_string()], "job"),
        Rendered::Text("=== a ===\nx\n=== b ===\ny".to_string())
    );
}

#[test]
fn process_list_is_a_table() {
    let formatter = Formatter::new(OutputFormat::Text);
    let processes = vec![
        record("web", ProcessStatus::Running, Some(1234)),
        record("a-name-longer-than-twenty-characters", ProcessStatus::Failed, None),
    ];
    let expected = format!(
        "{:<20} {:<10} {:<10} {:<30} {:<20}\n{}\n{:<20} {} {:<10} {:<30} {:<20}\n{:<20} {} {:<10} {:<30} {:<20}\n",
        "NAME",
        "STATUS",
        "PID",
        "COMMAND",
        "CREATED",
        "-".repeat(90),
        "web",
        "running",
        "1234",
        "sleep 5 6",
        "2023-11-14 22:13:20",
        "a-name-longer-than-twenty-characters",
        "failed",
        "-",
        "sleep 5 6",
        "2023-11-14 22:13:20",
    );
    assert_eq!(formatter.format_process_list_text(&processes), expected);
    assert_eq!(formatter.format_process_list(&processes), Rendered::Text(expected));
    let empty = formatter.format_process_list_text(&Vec::new());
    assert_eq!(empty.lines().count(), 2);
    assert!(empty.starts_with("NAME                 STATUS     PID        COMMAND"));
}

#[test]
fn process_status_is_a_description() {
    let formatter = Formatter::new(OutputFormat::Text);
    let mut process = record("web", ProcessStatus::Stopped, None);
    assert_eq!(
        formatter.format_process_status_text(&process),
        "Process: web\nStatus: stopped\nPID: N/A\nCommand: sleep 5 6\nWorking Directory: /work\n\
         Created: 2023-11-14 22:13:20\nUpdated: 2023-11-14 22:14:20\nLog File: /logs/job.log\n"
    );
    process.pid = Some(42);
    process.args = Vec::new();
    process.env_vars.insert("A".to_string(), "1".to_string());
    process.env_vars.insert("B".to_string(), "2".to_string());
    assert_eq!(
        formatter.format_process_status(&process),
        Rendered::Text(
            "Process: web\nStatus: stopped\nPID: 42\nCommand: sleep \nWorking Directory: /work\n\
             Created: 2023-11-14 22:13:20\nUpdated: 2023-11-14 22:14:20\nLog File: /logs/job.log\n\
             Environment Variables:\n  A=1\n  B=2\n"
                .to_string()
        )
    );
}

#[test]
fn instants_out_of_range_are_shown_as_a_dash() {
    let formatter = Formatter::new(OutputFormat::Text);
    let mut process = record("web", ProcessStatus::Stopped, Some(1));
    process.created_at = Timestamp { secs: i64::MIN, nanos: 0 };
    let text = formatter.format_process_status_text(&process);
    assert!(text.contains("Created: -\nUpdated: 2023-11-14 22:14:20\n"));
    let table = formatter.format_process_list_text(&vec![process]);
    assert!(table.ends_with(&format!("{:<20}\n", "-")));
}
