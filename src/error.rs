//! Errors of the library, a closed set of kinds each carrying a message.
use vstd::prelude::*;
use vstd::string::*;

verus! {

broadcast use vstd::string::to_string_from_display_ensures_for_str;

#[derive(Debug, PartialEq, Eq)]
pub enum AppError {
    ValidationError(String),
    ConnectionError(String),
    AuthenticationError(String),
    SessionError(String),
    SFTPError(String),
    PortForwardingError(String),
    TerminalError(String),
    DatabaseError(String),
    IOError(String),
    SerializationError(String),
    NotFoundError(String),
    PermissionError(String),
    UnknownError(String),
    SshError(String),
}

/// The message that an error carries.
pub open spec fn error_message(e: AppError) -> Seq<char> {
    match e {
        AppError::ValidationError(m) => m@,
        AppError::ConnectionError(m) => m@,
        AppError::AuthenticationError(m) => m@,
        AppError::SessionError(m) => m@,
        AppError::SFTPError(m) => m@,
        AppError::PortForwardingError(m) => m@,
        AppError::TerminalError(m) => m@,
        AppError::DatabaseError(m) => m@,
        AppError::IOError(m) => m@,
        AppError::SerializationError(m) => m@,
        AppError::NotFoundError(m) => m@,
        AppError::PermissionError(m) => m@,
        AppError::UnknownError(m) => m@,
        AppError::SshError(m) => m@,
    }
}

/// The words that introduce an error of each kind in its text.
pub open spec fn error_prefix(e: AppError) -> Seq<char> {
    match e {
        AppError::ValidationError(_) => "Validation error: "@,
        AppError::ConnectionError(_) => "Connection error: "@,
        AppError::AuthenticationError(_) => "Authentication error: "@,
        AppError::SessionError(_) => "Session error: "@,
        AppError::SFTPError(_) => "SFTP error: "@,
        AppError::PortForwardingError(_) => "Port forwarding error: "@,
        AppError::TerminalError(_) => "Terminal error: "@,
        AppError::DatabaseError(_) => "Database error: "@,
        AppError::IOError(_) => "IO error: "@,
        AppError::SerializationError(_) => "Serialization error: "@,
        AppError::NotFoundError(_) => "Not found: "@,
        AppError::PermissionError(_) => "Permission denied: "@,
        AppError::UnknownError(_) => "Unknown error: "@,
        AppError::SshError(_) => "SSH error: "@,
    }
}

impl AppError {
    /// The human-readable text of the error: its kind, then its message.
    pub fn to_string(&self) -> (r: String)
        ensures
            r@ == error_prefix(*self) + error_message(*self),
    {
        let (prefix, m) = match self {
            AppError::ValidationError(m) => ("Validation error: ", m),
            AppError::ConnectionError(m) => ("Connection error: ", m),
            AppError::AuthenticationError(m) => ("Authentication error: ", m),
            AppError::SessionError(m) => ("Session error: ", m),
            AppError::SFTPError(m) => ("SFTP error: ", m),
            AppError::PortForwardingError(m) => ("Port forwarding error: ", m),
            AppError::TerminalError(m) => ("Terminal error: ", m),
            AppError::DatabaseError(m) => ("Database error: ", m),
            AppError::IOError(m) => ("IO error: ", m),
            AppError::SerializationError(m) => ("Serialization error: ", m),
            AppError::NotFoundError(m) => ("Not found: ", m),
            AppError::PermissionError(m) => ("Permission denied: ", m),
            AppError::UnknownError(m) => ("Unknown error: ", m),
            AppError::SshError(m) => ("SSH error: ", m),
        };
        prefix.to_string().concat(m.as_str())
    }
}

/// Whether `text` begins with `prefix`.
pub open spec fn starts_with(text: Seq<char>, prefix: Seq<char>) -> bool {
    prefix.len() <= text.len() && text.take(prefix.len() as int) == prefix
}

/// Text made of a fixed prefix followed by a detail.
pub fn prefixed(prefix: &str, detail: &str) -> (r: String)
    ensures
        r@ == prefix@ + detail@,
        starts_with(r@, prefix@),
{
    let r = prefix.to_string().concat(detail);
    assert(r@.take(prefix@.len() as int) =~= prefix@);
    r
}

} // verus!
