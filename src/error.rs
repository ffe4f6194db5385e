use vstd::prelude::*;
use vstd::string::StringExecFns;

verus! {

/// Why an operation failed. Every failure reaches the caller at once; none is
/// retried or suppressed.
#[derive(Debug, PartialEq, Eq)]
pub enum CommandError {
    /// The database file could not be opened or read.
    IoFailure(String),
    /// The engine refused to prepare or run a query.
    EngineError(String),
    /// No connection has been opened yet.
    NotConnected,
    /// An explicit guard condition failed.
    Other(String),
}

pub open spec fn io_prefix() -> Seq<char> {
    "IO error: "@
}

pub open spec fn engine_prefix() -> Seq<char> {
    "Database error: "@
}

pub open spec fn not_connected_text() -> Seq<char> {
    "No database connected"@
}

pub open spec fn other_prefix() -> Seq<char> {
    "Other: "@
}

impl CommandError {
    /// The kind of this error as a stable word, for structured transport.
    pub open spec fn kind_spec(&self) -> Seq<char> {
        match self {
            CommandError::IoFailure(_) => "io"@,
            CommandError::EngineError(_) => "engine"@,
            CommandError::NotConnected => "not_connected"@,
            CommandError::Other(_) => "other"@,
        }
    }

    /// The human-readable message of this error.
    pub open spec fn message_spec(&self) -> Seq<char> {
        match self {
            CommandError::IoFailure(m) => io_prefix() + m@,
            CommandError::EngineError(m) => engine_prefix() + m@,
            CommandError::NotConnected => not_connected_text(),
            CommandError::Other(m) => other_prefix() + m@,
        }
    }

    pub fn kind(&self) -> (r: String)
        ensures
            r@ == self.kind_spec(),
    {
        match self {
            CommandError::IoFailure(_) => String::from_str("io"),
            CommandError::EngineError(_) => String::from_str("engine"),
            CommandError::NotConnected => String::from_str("not_connected"),
            CommandError::Other(_) => String::from_str("other"),
        }
    }

    pub fn message(&self) -> (r: String)
        ensures
            r@ == self.message_spec(),
    {
        match self {
            CommandError::IoFailure(m) => String::from_str("IO error: ").concat(m.as_str()),
            CommandError::EngineError(m) => String::from_str("Database error: ").concat(m.as_str()),
            CommandError::NotConnected => String::from_str("No database connected"),
            CommandError::Other(m) => String::from_str("Other: ").concat(m.as_str()),
        }
    }
}

} // verus!
