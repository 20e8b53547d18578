use vstd::prelude::*;
use crate::text::concat_str;

verus! {

/// Errors surfaced by the library, each mapped to a sysexits-style code.
#[derive(Debug, Clone, PartialEq, Eq)]
pub enum Error {
    Usage(String),
    Config(String),
    Auth(String),
    Io(String),
    Api(String),
    Internal(String),
}

/// The process exit code of an error: usage errors exit 2, I/O errors 74,
/// everything else 70.
pub open spec fn spec_exit_code(e: Error) -> u8 {
    match e {
        Error::Usage(_) => 2,
        Error::Io(_) => 74,
        _ => 70,
    }
}

/// The text an error prints as: usage and internal errors as their message,
/// the others with a `config: `, `auth: `, `io: ` or `api: ` prefix.
pub open spec fn spec_error_text(e: Error) -> Seq<char> {
    match e {
        Error::Usage(m) => m@,
        Error::Config(m) => "config: "@ + m@,
        Error::Auth(m) => "auth: "@ + m@,
        Error::Io(m) => "io: "@ + m@,
        Error::Api(m) => "api: "@ + m@,
        Error::Internal(m) => m@,
    }
}

impl Error {
    /// The text the error prints as.
    pub fn text(&self) -> (r: String)
        ensures
            r@ == spec_error_text(*self),
    {
        match self {
            Error::Usage(m) => m.clone(),
            Error::Config(m) => concat_str("config: ", m.as_str()),
            Error::Auth(m) => concat_str("auth: ", m.as_str()),
            Error::Io(m) => concat_str("io: ", m.as_str()),
            Error::Api(m) => concat_str("api: ", m.as_str()),
            Error::Internal(m) => m.clone(),
        }
    }

    /// sysexits-style process exit codes.
    pub fn exit_code(&self) -> (code: u8)
        ensures
            code == spec_exit_code(*self),
    {
        match self {
            Error::Usage(_) => 2,
            Error::Io(_) => 74,
            _ => 70,
        }
    }
}

} // verus!
