use crate::text::concat2;
use vstd::prelude::*;

verus! {

/// Errors produced by the library. Every variant carries a human-readable
/// description of what went wrong.
#[derive(Debug, Clone, PartialEq, Eq)]
pub enum MentalOSError {
    Io(String),
    Http(String),
    Json(String),
    Toml(String),
    ConfigMissing(String),
    ConfigInvalid(String),
    NotApproved(String),
    CommandFailed(String),
    OpenClawUnavailable(String),
    InvalidCommand(String),
    Other(String),
}

pub type Result<T> = core::result::Result<T, MentalOSError>;

/// How an error reads: what went wrong, then its description.
pub open spec fn error_text(e: MentalOSError) -> Seq<char> {
    match e {
        MentalOSError::Io(m) => "io error: "@ + m@,
        MentalOSError::Http(m) => "http error: "@ + m@,
        MentalOSError::Json(m) => "json error: "@ + m@,
        MentalOSError::Toml(m) => "toml error: "@ + m@,
        MentalOSError::ConfigMissing(m) => "config not found at "@ + m@,
        MentalOSError::ConfigInvalid(m) => "config is invalid: "@ + m@,
        MentalOSError::NotApproved(m) => "command not approved: "@ + m@,
        MentalOSError::CommandFailed(m) => "command execution failed: "@ + m@,
        MentalOSError::OpenClawUnavailable(m) => "openclaw unavailable: "@ + m@,
        MentalOSError::InvalidCommand(m) => "invalid command: "@ + m@,
        MentalOSError::Other(m) => "other error: "@ + m@,
    }
}

impl MentalOSError {
    /// The error as a sentence (what `to_string` gives).
    pub fn text(&self) -> (r: String)
        ensures
            r@ == error_text(*self),
    {
        match self {
            MentalOSError::Io(m) => concat2("io error: ", m.as_str()),
            MentalOSError::Http(m) => concat2("http error: ", m.as_str()),
            MentalOSError::Json(m) => concat2("json error: ", m.as_str()),
            MentalOSError::Toml(m) => concat2("toml error: ", m.as_str()),
            MentalOSError::ConfigMissing(m) => concat2("config not found at ", m.as_str()),
            MentalOSError::ConfigInvalid(m) => concat2("config is invalid: ", m.as_str()),
            MentalOSError::NotApproved(m) => concat2("command not approved: ", m.as_str()),
            MentalOSError::CommandFailed(m) => concat2("command execution failed: ", m.as_str()),
            MentalOSError::OpenClawUnavailable(m) => concat2("openclaw unavailable: ", m.as_str()),
            MentalOSError::InvalidCommand(m) => concat2("invalid command: ", m.as_str()),
            MentalOSError::Other(m) => concat2("other error: ", m.as_str()),
        }
    }
}

} // verus!
