//! The persisted description of a supervised process.

use crate::codec::{
    instant_from_rfc3339,
    instant_of_rfc3339,
    instant_to_rfc3339,
    json_of_pairs,
    json_of_strings,
    pairs_from_json,
    pairs_of_json,
    pairs_to_json,
    parse_error_text,
    rfc3339_of,
    strings_from_json,
    strings_of_json,
    strings_to_json,
};
use crate::env::{EnvVars, folded};
use crate::error::{Error, ErrorView};
use crate::text::{begins_with, copy_strings, same_text, strings_view};
use vstd::prelude::*;
use vstd::string::StringExecFns;

verus! {

/// Lifecycle state of a supervised process.
#[derive(Debug, Clone, Copy, PartialEq, Eq, Hash, Structural)]
pub enum ProcessStatus {
    Running,
    Stopped,
    Failed,
    Unknown,
}

impl ProcessStatus {
    /// The word under which the status is stored and shown.
    pub open spec fn label(self) -> Seq<char> {
        match self {
            ProcessStatus::Running => "running"@,
            ProcessStatus::Stopped => "stopped"@,
            ProcessStatus::Failed => "failed"@,
            ProcessStatus::Unknown => "unknown"@,
        }
    }

    /// The status that a stored word stands for; any other word is unknown.
    pub open spec fn parsed(word: Seq<char>) -> ProcessStatus {
        if word == "running"@ {
            ProcessStatus::Running
        } else if word == "stopped"@ {
            ProcessStatus::Stopped
        } else if word == "failed"@ {
            ProcessStatus::Failed
        } else {
            ProcessStatus::Unknown
        }
    }

    /// A process at rest that a sweep of finished processes removes.
    pub open spec fn is_finished(self) -> bool {
        self == ProcessStatus::Stopped || self == ProcessStatus::Failed
    }

    /// The word under which the status is stored and shown.
    pub fn as_str(&self) -> (word: &'static str)
        ensures
            word@ == self.label(),
    {
        match self {
            ProcessStatus::Running => "running",
            ProcessStatus::Stopped => "stopped",
            ProcessStatus::Failed => "failed",
            ProcessStatus::Unknown => "unknown",
        }
    }

    /// Same word as [`ProcessStatus::as_str`], owned.
    pub fn to_string(&self) -> (word: String)
        ensures
            word@ == self.label(),
    {
        String::from_str(self.as_str())
    }

    /// The status that a stored word stands for; any other word is unknown.
    pub fn parse(word: &str) -> (status: ProcessStatus)
        ensures
            status == Self::parsed(word@),
    {
        if same_text(word, "running") {
            ProcessStatus::Running
        } else if same_text(word, "stopped") {
            ProcessStatus::Stopped
        } else if same_text(word, "failed") {
            ProcessStatus::Failed
        } else {
            ProcessStatus::Unknown
        }
    }

    /// Whether a sweep of finished processes removes a process in this state.
    pub fn finished(&self) -> (b: bool)
        ensures
            b == self.is_finished(),
    {
        match self {
            ProcessStatus::Stopped => true,
            ProcessStatus::Failed => true,
            _ => false,
        }
    }

    /// Storing a status and reading it back gives the same status.
    pub proof fn lemma_label_round_trip(self)
        ensures
            Self::parsed(self.label()) == self,
    {
        reveal_strlit("running");
        reveal_strlit("stopped");
        reveal_strlit("failed");
        reveal_strlit("unknown");
        assert("running"@.len() == 7);
        assert("stopped"@.len() == 7);
        assert("failed"@.len() == 6);
        assert("unknown"@.len() == 7);
        assert("running"@[0] == 'r');
        assert("stopped"@[0] == 's');
        assert("unknown"@[0] == 'u');
    }
}

/// An instant: seconds since the Unix epoch and the nanoseconds within the
/// second.
#[derive(Debug, Clone, Copy, PartialEq, Eq, PartialOrd, Ord, Hash, Structural)]
pub struct Timestamp {
    pub secs: i64,
    pub nanos: u32,
}

/// One supervised process as the store keeps it.
#[derive(Debug, PartialEq, Eq)]
pub struct ProcessRecord {
    pub id: String,
    pub name: String,
    pub command: String,
    pub args: Vec<String>,
    pub env_vars: EnvVars,
    pub working_dir: String,
    pub pid: Option<u32>,
    pub status: ProcessStatus,
    pub created_at: Timestamp,
    pub updated_at: Timestamp,
    pub log_path: String,
}

/// Mathematical value of a [`ProcessRecord`].
pub struct RecordView {
    pub id: Seq<char>,
    pub name: Seq<char>,
    pub command: Seq<char>,
    pub args: Seq<Seq<char>>,
    pub env_vars: Seq<(Seq<char>, Seq<char>)>,
    pub working_dir: Seq<char>,
    pub pid: Option<u32>,
    pub status: ProcessStatus,
    pub created_at: Timestamp,
    pub updated_at: Timestamp,
    pub log_path: Seq<char>,
}

impl View for ProcessRecord {
    type V = RecordView;

    open spec fn view(&self) -> RecordView {
        RecordView {
            id: self.id@,
            name: self.name@,
            command: self.command@,
            args: strings_view(self.args@),
            env_vars: self.env_vars.pairs(),
            working_dir: self.working_dir@,
            pid: self.pid,
            status: self.status,
            created_at: self.created_at,
            updated_at: self.updated_at,
            log_path: self.log_path@,
        }
    }
}

/// View of an optional record.
pub open spec fn optional_record(r: Option<ProcessRecord>) -> Option<RecordView> {
    match r {
        Some(r) => Some(r@),
        None => None,
    }
}

impl Clone for ProcessRecord {
    fn clone(&self) -> (r: Self)
        ensures
            r@ == self@,
    {
        ProcessRecord {
            id: self.id.clone(),
            name: self.name.clone(),
            command: self.command.clone(),
            args: copy_strings(&self.args),
            env_vars: self.env_vars.clone(),
            working_dir: self.working_dir.clone(),
            pid: self.pid,
            status: self.status,
            created_at: self.created_at,
            updated_at: self.updated_at,
            log_path: self.log_path.clone(),
        }
    }
}

/// A change of status and pid that the store is asked to persist for the
/// record called `name`.
#[derive(Debug, PartialEq, Eq)]
pub struct StatusUpdate {
    pub name: String,
    pub status: ProcessStatus,
    pub pid: Option<u32>,
}

/// One record as the columns of a row of the store: the arguments and the
/// variables as JSON, the status as its word, the instants as RFC 3339.
#[derive(Debug, PartialEq, Eq)]
pub struct StoredProcess {
    pub id: String,
    pub name: String,
    pub command: String,
    pub args: String,
    pub env_vars: String,
    pub working_dir: String,
    pub pid: Option<i64>,
    pub status: String,
    pub created_at: String,
    pub updated_at: String,
    pub log_path: String,
}

/// The pid that a column of the store holds: the number cut to 32 bits.
pub open spec fn pid_of_column(pid: Option<i64>) -> Option<u32> {
    match pid {
        Some(p) => Some(p as u32),
        None => None,
    }
}

/// The column of the store for a pid.
pub open spec fn column_of_pid(pid: Option<u32>) -> Option<i64> {
    match pid {
        Some(p) => Some(p as i64),
        None => None,
    }
}

/// Whether the columns of `row` can be read as a record: the arguments
/// are a JSON array of strings, the variables a JSON object of strings,
/// and the two instants RFC 3339.
pub open spec fn row_is_readable(row: StoredProcess) -> bool {
    &&& strings_of_json(row.args@) is Some
    &&& pairs_of_json(row.env_vars@) is Some
    &&& instant_of_rfc3339(row.created_at@) is Some
    &&& instant_of_rfc3339(row.updated_at@) is Some
}

/// The record that the columns of `row` stand for, if they can be read. A
/// status word that is none of the known ones stands for `Unknown`.
pub fn row_to_process_record(row: StoredProcess) -> (r: Result<ProcessRecord, Error>)
    ensures
        r is Ok == row_is_readable(row),
        r matches Ok(record) ==> {
            &&& record.id == row.id
            &&& record.name == row.name
            &&& record.command == row.command
            &&& Some(record@.args) == strings_of_json(row.args@)
            &&& record.env_vars@ == folded(pairs_of_json(row.env_vars@)->0)
            &&& record.working_dir == row.working_dir
            &&& record.pid == pid_of_column(row.pid)
            &&& record.status == ProcessStatus::parsed(row.status@)
            &&& Some((record.created_at.secs, record.created_at.nanos)) == instant_of_rfc3339(
                row.created_at@,
            )
            &&& Some((record.updated_at.secs, record.updated_at.nanos)) == instant_of_rfc3339(
                row.updated_at@,
            )
            &&& record.log_path == row.log_path
        },
        r matches Err(e) ==> if strings_of_json(row.args@) is None || pairs_of_json(
            row.env_vars@,
        ) is None {
            e is SerializationError
        } else if instant_of_rfc3339(row.created_at@) is None {
            e matches Error::Other(text) && begins_with(text@, "Failed to parse created_at: "@)
        } else {
            e matches Error::Other(text) && begins_with(text@, "Failed to parse updated_at: "@)
        },
{
    let args = match strings_from_json(row.args.as_str()) {
        Ok(args) => args,
        Err(e) => {
            return Err(Error::SerializationError(e));
        },
    };
    let pairs = match pairs_from_json(row.env_vars.as_str()) {
        Ok(pairs) => pairs,
        Err(e) => {
            return Err(Error::SerializationError(e));
        },
    };
    let env_vars = EnvVars::from_pairs(&pairs);
    let created_at = match instant_from_rfc3339(row.created_at.as_str()) {
        Ok(at) => at,
        Err(e) => {
            let mut text = String::from_str("Failed to parse created_at: ");
            text.append(parse_error_text(&e).as_str());
            assert(text@.take("Failed to parse created_at: "@.len() as int)
                =~= "Failed to parse created_at: "@);
            return Err(Error::Other(text));
        },
    };
    let updated_at = match instant_from_rfc3339(row.updated_at.as_str()) {
        Ok(at) => at,
        Err(e) => {
            let mut text = String::from_str("Failed to parse updated_at: ");
            text.append(parse_error_text(&e).as_str());
            assert(text@.take("Failed to parse updated_at: "@.len() as int)
                =~= "Failed to parse updated_at: "@);
            return Err(Error::Other(text));
        },
    };
    let status = ProcessStatus::parse(row.status.as_str());
    let pid = match row.pid {
        Some(p) => Some(
            #[verifier::truncate]
            (p as u32),
        ),
        None => None,
    };
    Ok(
        ProcessRecord {
            id: row.id,
            name: row.name,
            command: row.command,
            args,
            env_vars,
            working_dir: row.working_dir,
            pid,
            status,
            created_at,
            updated_at,
            log_path: row.log_path,
        },
    )
}

/// Whether `record` can be written as the columns of a row: its arguments
/// and variables as JSON, its two instants as RFC 3339.
pub open spec fn record_is_writable(record: RecordView) -> bool {
    &&& json_of_strings(record.args) is Some
    &&& json_of_pairs(record.env_vars) is Some
    &&& rfc3339_of(record.created_at.secs, record.created_at.nanos) is Some
    &&& rfc3339_of(record.updated_at.secs, record.updated_at.nanos) is Some
}

/// The failure for an instant that cannot be written.
pub open spec fn unwritable_instant(column: Seq<char>) -> ErrorView {
    ErrorView::Other("Failed to write "@ + column + ": instant out of range"@)
}

fn unwritable(column: &str) -> (e: Error)
    ensures
        e@ == unwritable_instant(column@),
{
    let mut text = String::from_str("Failed to write ");
    text.append(column);
    text.append(": instant out of range");
    Error::Other(text)
}

/// The columns of the row that the store keeps for `record`.
pub fn process_record_to_row(record: &ProcessRecord) -> (r: Result<StoredProcess, Error>)
    ensures
        r is Ok == record_is_writable(record@),
        r matches Ok(row) ==> {
            &&& row.id@ == record@.id
            &&& row.name@ == record@.name
            &&& row.command@ == record@.command
            &&& Some(row.args@) == json_of_strings(record@.args)
            &&& Some(row.env_vars@) == json_of_pairs(record@.env_vars)
            &&& row.working_dir@ == record@.working_dir
            &&& row.pid == column_of_pid(record.pid)
            &&& row.status@ == record.status.label()
            &&& Some(row.created_at@) == rfc3339_of(
                record.created_at.secs,
                record.created_at.nanos,
            )
            &&& Some(row.updated_at@) == rfc3339_of(
                record.updated_at.secs,
                record.updated_at.nanos,
            )
            &&& row.log_path@ == record@.log_path
        },
        r matches Err(e) ==> if json_of_strings(record@.args) is None || json_of_pairs(
            record@.env_vars,
        ) is None {
            e is SerializationError
        } else if rfc3339_of(record.created_at.secs, record.created_at.nanos) is None {
            e@ == unwritable_instant("created_at"@)
        } else {
            e@ == unwritable_instant("updated_at"@)
        },
{
    let args = match strings_to_json(&record.args) {
        Ok(args) => args,
        Err(e) => {
            return Err(Error::SerializationError(e));
        },
    };
    let env_vars = match pairs_to_json(record.env_vars.entries()) {
        Ok(env_vars) => env_vars,
        Err(e) => {
            return Err(Error::SerializationError(e));
        },
    };
    let created_at = match instant_to_rfc3339(record.created_at) {
        Some(text) => text,
        None => {
            return Err(unwritable("created_at"));
        },
    };
    let updated_at = match instant_to_rfc3339(record.updated_at) {
        Some(text) => text,
        None => {
            return Err(unwritable("updated_at"));
        },
    };
    let pid = match record.pid {
        Some(p) => Some(p as i64),
        None => None,
    };
    Ok(
        StoredProcess {
            id: record.id.clone(),
            name: record.name.clone(),
            command: record.command.clone(),
            args,
            env_vars,
            working_dir: record.working_dir.clone(),
            pid,
            status: record.status.to_string(),
            created_at,
            updated_at,
            log_path: record.log_path.clone(),
        },
    )
}

} // verus!
