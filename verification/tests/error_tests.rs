use pmr::api::handlers::{
    ApiResponse, LogsQuery, MessageResponse, ProcessListResponse, ProcessResponse,
};
use pmr::process::logs::LogTask;
use pmr::Error;

#[test]
fn failures_read_as_sentences() {
    assert_eq!(Error::Database("locked".to_string()).to_string(), "Database error: locked");
    assert_eq!(Error::Io("denied".to_string()).to_string(), "IO error: denied");
    assert_eq!(Error::ProcessNotFound("job".to_string()).to_string(), "Process 'job' not found");
    assert_eq!(
        Error::ProcessAlreadyExists("job".to_string()).to_string(),
        "Process 'job' already exists"
    );
    assert_eq!(
        Error::InvalidProcessState("no pid".to_string()).to_string(),
        "Invalid process state: no pid"
    );
    assert_eq!(
        Error::SerializationError("eof".to_string()).to_string(),
        "Serialization error: eof"
    );
    assert_eq!(Error::Other("as it is".to_string()).to_string(), "as it is");
    assert_eq!(Error::Other("as it is".to_string()).message(), "as it is");
    assert_eq!(Error::Io("denied".to_string()).detail(), "denied");
    assert_eq!(Error::ProcessNotFound("job".to_string()).detail(), "job");
}

#[test]
fn failures_map_to_status_codes() {
    assert_eq!(Error::ProcessNotFound("job".to_string()).status_code(), 404);
    assert_eq!(Error::ProcessAlreadyExists("job".to_string()).status_code(), 409);
    assert_eq!(Error::Database("x".to_string()).status_code(), 500);
    assert_eq!(Error::Io("x".to_string()).status_code(), 500);
    assert_eq!(Error::InvalidProcessState("x".to_string()).status_code(), 500);
    assert_eq!(Error::SerializationError("x".to_string()).status_code(), 500);
    assert_eq!(Error::Other("x".to_string()).status_code(), 500);
}

#[test]
fn failures_clone_as_they_are() {
    let failure = Error::InvalidProcessState("Process 'a' has no PID".to_string());
    assert_eq!(failure.clone(), failure);
}

#[test]
fn answers_carry_data_or_message() {
    let ok = ApiResponse::success(5u32);
    assert!(ok.success);
    assert_eq!(ok.data, Some(5));
    assert_eq!(ok.error, None);
    let failed = ApiResponse::<u32>::error("no".to_string());
    assert!(!failed.success);
    assert_eq!(failed.data, None);
    assert_eq!(failed.error, Some("no".to_string()));

    let message = MessageResponse::success("done".to_string());
    assert_eq!((message.success, message.data, message.error), (true, Some("done".to_string()), None));
    let refused = MessageResponse::error("no".to_string());
    assert_eq!((refused.success, refused.data, refused.error), (false, None, Some("no".to_string())));

    let list = ProcessListResponse::success(Vec::new());
    assert_eq!((list.success, list.data, list.error), (true, Some(Vec::new()), None));
    let no_list = ProcessListResponse::error("no".to_string());
    assert_eq!((no_list.success, no_list.data, no_list.error), (false, None, Some("no".to_string())));
    let none = ProcessResponse::error("no".to_string());
    assert_eq!((none.success, none.data, none.error), (false, None, Some("no".to_string())));
}

#[test]
fn log_queries_ask_for_rotated_logs_or_a_tail() {
    assert_eq!(LogsQuery { lines: Some(3), rotated: None }.task(), LogTask::Tail { lines: Some(3) });
    assert_eq!(LogsQuery { lines: None, rotated: Some(false) }.task(), LogTask::Tail { lines: None });
    assert_eq!(LogsQuery { lines: Some(3), rotated: Some(true) }.task(), LogTask::Rotated);
}
