//! The error surface shared by the library: a kind, an optional message and
//! an optional description of the underlying cause.

use vstd::prelude::*;

verus! {

/// The kinds of errors that the library can return.
#[derive(Debug, Clone, Copy, PartialEq, Eq, Structural)]
pub enum ErrorKind {
    InvalidOp,
    InvalidExtension,
    MissingArgument,
    InvalidArgument,
    IoError,
    JsonError,
    YamlError,
    MacError,
    UrlError,
    ChaChaError,
    RandError,
    FormatError,
}

impl ErrorKind {
    /// The name of the kind, for presentation by callers.
    pub fn as_str(&self) -> (r: &'static str)
        ensures
            r@ == kind_name(*self),
    {
        match self {
            ErrorKind::InvalidOp => "InvalidOp",
            ErrorKind::InvalidExtension => "InvalidExtension",
            ErrorKind::MissingArgument => "MissingArgument",
            ErrorKind::InvalidArgument => "InvalidArgument",
            ErrorKind::IoError => "IoError",
            ErrorKind::JsonError => "JsonError",
            ErrorKind::YamlError => "YamlError",
            ErrorKind::MacError => "MacError",
            ErrorKind::UrlError => "UrlError",
            ErrorKind::ChaChaError => "ChaChaError",
            ErrorKind::RandError => "RandError",
            ErrorKind::FormatError => "FormatError",
        }
    }
}

/// The name that `as_str` returns for each kind.
pub open spec fn kind_name(kind: ErrorKind) -> Seq<char> {
    match kind {
        ErrorKind::InvalidOp => "InvalidOp"@,
        ErrorKind::InvalidExtension => "InvalidExtension"@,
        ErrorKind::MissingArgument => "MissingArgument"@,
        ErrorKind::InvalidArgument => "InvalidArgument"@,
        ErrorKind::IoError => "IoError"@,
        ErrorKind::JsonError => "JsonError"@,
        ErrorKind::YamlError => "YamlError"@,
        ErrorKind::MacError => "MacError"@,
        ErrorKind::UrlError => "UrlError"@,
        ErrorKind::ChaChaError => "ChaChaError"@,
        ErrorKind::RandError => "RandError"@,
        ErrorKind::FormatError => "FormatError"@,
    }
}

/// An error of the library: a kind, an optional human-readable message and
/// an optional rendering of the underlying cause.
///
/// These errors are not meant to be handled beyond inspecting the kind; they
/// indicate that an operation failed and carry what is known about why.
#[derive(Debug)]
pub struct Error {
    pub kind: ErrorKind,
    pub message: Option<String>,
    pub source: Option<String>,
}

pub type Result<T> = core::result::Result<T, Error>;

impl Error {
    /// A bare error of the given kind.
    pub fn new(kind: ErrorKind) -> (r: Error)
        ensures
            r.kind == kind,
            r.message is None,
            r.source is None,
    {
        Error { kind, message: None, source: None }
    }

    /// The same error, with the given description of the underlying cause.
    pub fn with_error(self, source: String) -> (r: Error)
        ensures
            r.kind == self.kind,
            r.message == self.message,
            r.source == Some(source),
    {
        Error { source: Some(source), ..self }
    }

    /// The same error, with the given message.
    pub fn with_message(self, message: String) -> (r: Error)
        ensures
            r.kind == self.kind,
            r.message == Some(message),
            r.source == self.source,
    {
        Error { message: Some(message), ..self }
    }
}

/// The common error for an invalid argument, quoting the argument.
pub fn invalid_argument(arg: String) -> (r: Error)
    ensures
        r.kind == ErrorKind::InvalidArgument,
        r.message matches Some(m) && m@ == "given invalid argument. \""@ + arg@ + "\""@,
{
    let mut msg = String::new();
    msg.append("given invalid argument. \"");
    msg.append(arg.as_str());
    msg.append("\"");
    Error::new(ErrorKind::InvalidArgument).with_message(msg)
}

/// The common error for a record name that is not in the file, quoting the name.
pub fn name_not_found(name: String) -> (r: Error)
    ensures
        r.kind == ErrorKind::InvalidArgument,
        r.message matches Some(m) && m@ == "given name does not exist in file. \""@ + name@ + "\""@,
{
    let mut msg = String::new();
    msg.append("given name does not exist in file. \"");
    msg.append(name.as_str());
    msg.append("\"");
    Error::new(ErrorKind::InvalidArgument).with_message(msg)
}

} // verus!
