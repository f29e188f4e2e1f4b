//! Failures that supervisor operations report.

use vstd::prelude::*;
use vstd::string::StringExecFns;

verus! {

/// What went wrong. Failures of the store, of the filesystem and of a codec
/// carry the text that the collaborator gave for them.
#[derive(Debug, PartialEq, Eq)]
pub enum Error {
    Database(String),
    Io(String),
    ProcessNotFound(String),
    ProcessAlreadyExists(String),
    InvalidProcessState(String),
    SerializationError(String),
    Other(String),
}

pub type Result<T> = std::result::Result<T, Error>;

/// Mathematical value of an [`Error`].
pub enum ErrorView {
    Database(Seq<char>),
    Io(Seq<char>),
    ProcessNotFound(Seq<char>),
    ProcessAlreadyExists(Seq<char>),
    InvalidProcessState(Seq<char>),
    SerializationError(Seq<char>),
    Other(Seq<char>),
}

impl View for Error {
    type V = ErrorView;

    open spec fn view(&self) -> ErrorView {
        match self {
            Error::Database(s) => ErrorView::Database(s@),
            Error::Io(s) => ErrorView::Io(s@),
            Error::ProcessNotFound(s) => ErrorView::ProcessNotFound(s@),
            Error::ProcessAlreadyExists(s) => ErrorView::ProcessAlreadyExists(s@),
            Error::InvalidProcessState(s) => ErrorView::InvalidProcessState(s@),
            Error::SerializationError(s) => ErrorView::SerializationError(s@),
            Error::Other(s) => ErrorView::Other(s@),
        }
    }
}

/// View of an optional failure.
pub open spec fn optional_error(e: Option<Error>) -> Option<ErrorView> {
    match e {
        Some(e) => Some(e@),
        None => None,
    }
}

impl Clone for Error {
    fn clone(&self) -> (r: Self)
        ensures
            r@ == self@,
    {
        match self {
            Error::Database(s) => Error::Database(s.clone()),
            Error::Io(s) => Error::Io(s.clone()),
            Error::ProcessNotFound(s) => Error::ProcessNotFound(s.clone()),
            Error::ProcessAlreadyExists(s) => Error::ProcessAlreadyExists(s.clone()),
            Error::InvalidProcessState(s) => Error::InvalidProcessState(s.clone()),
            Error::SerializationError(s) => Error::SerializationError(s.clone()),
            Error::Other(s) => Error::Other(s.clone()),
        }
    }
}

impl ErrorView {
    /// The sentence shown to the operator for this failure.
    pub open spec fn message(self) -> Seq<char> {
        match self {
            ErrorView::Database(e) => "Database error: "@ + e,
            ErrorView::Io(e) => "IO error: "@ + e,
            ErrorView::ProcessNotFound(name) => "Process '"@ + name + "' not found"@,
            ErrorView::ProcessAlreadyExists(name) => "Process '"@ + name + "' already exists"@,
            ErrorView::InvalidProcessState(reason) => "Invalid process state: "@ + reason,
            ErrorView::SerializationError(e) => "Serialization error: "@ + e,
            ErrorView::Other(text) => text,
        }
    }

    /// The text that the failure carries, without what `message` puts
    /// around it.
    pub open spec fn detail(self) -> Seq<char> {
        match self {
            ErrorView::Database(e) => e,
            ErrorView::Io(e) => e,
            ErrorView::ProcessNotFound(name) => name,
            ErrorView::ProcessAlreadyExists(name) => name,
            ErrorView::InvalidProcessState(reason) => reason,
            ErrorView::SerializationError(e) => e,
            ErrorView::Other(text) => text,
        }
    }

    /// Status code that a remote frontend answers with: not-found and
    /// already-exists stay distinguishable, every other failure is generic.
    pub open spec fn status_code(self) -> u16 {
        match self {
            ErrorView::ProcessNotFound(_) => 404,
            ErrorView::ProcessAlreadyExists(_) => 409,
            _ => 500,
        }
    }
}

impl Error {
    /// The sentence shown to the operator for this failure.
    pub fn message(&self) -> (text: String)
        ensures
            text@ == self@.message(),
    {
        match self {
            Error::Database(e) => {
                let mut text = String::from_str("Database error: ");
                text.append(e.as_str());
                text
            },
            Error::Io(e) => {
                let mut text = String::from_str("IO error: ");
                text.append(e.as_str());
                text
            },
            Error::ProcessNotFound(name) => {
                let mut text = String::from_str("Process '");
                text.append(name.as_str());
                text.append("' not found");
                text
            },
            Error::ProcessAlreadyExists(name) => {
                let mut text = String::from_str("Process '");
                text.append(name.as_str());
                text.append("' already exists");
                text
            },
            Error::InvalidProcessState(reason) => {
                let mut text = String::from_str("Invalid process state: ");
                text.append(reason.as_str());
                text
            },
            Error::SerializationError(e) => {
                let mut text = String::from_str("Serialization error: ");
                text.append(e.as_str());
                text
            },
            Error::Other(text) => String::from_str(text.as_str()),
        }
    }

    /// The text that the failure carries, without what `message` puts
    /// around it.
    pub fn detail(&self) -> (text: &String)
        ensures
            text@ == self@.detail(),
    {
        match self {
            Error::Database(e) => e,
            Error::Io(e) => e,
            Error::ProcessNotFound(name) => name,
            Error::ProcessAlreadyExists(name) => name,
            Error::InvalidProcessState(reason) => reason,
            Error::SerializationError(e) => e,
            Error::Other(text) => text,
        }
    }

    /// Same text as [`Error::message`].
    pub fn to_string(&self) -> (text: String)
        ensures
            text@ == self@.message(),
    {
        self.message()
    }

    /// Status code that a remote frontend answers with.
    pub fn status_code(&self) -> (code: u16)
        ensures
            code == self@.status_code(),
    {
        match self {
            Error::ProcessNotFound(_) => 404,
            Error::ProcessAlreadyExists(_) => 409,
            _ => 500,
        }
    }
}

} // verus!
