//! The error type shared by every lookup.

use vstd::prelude::*;
use crate::platform::Lookup;

verus! {

/// Why a lookup failed.
#[derive(Clone, Copy, Debug, PartialEq, Eq, Structural)]
pub enum ErrorKind {
    /// The lookup command of the platform could not be started.
    SubprocessLaunchFailure,
    /// The lookup command ran and named no `java`, or the chain of links
    /// behind it never reached a real file.
    JavaNotFound,
    /// Bytes or a path that cannot be read as text.
    InvalidEncoding,
    /// Nothing below the Java home matches the file name.
    FileNotFound,
    /// The search pattern is malformed.
    PatternError,
}

/// The mathematical value of a [`JavaLocatorError`].
pub struct ErrorView {
    pub kind: ErrorKind,
    pub description: Seq<char>,
}

/// A failed lookup: its kind, and a message for the user.
#[derive(Debug)]
pub struct JavaLocatorError {
    kind: ErrorKind,
    description: String,
}

impl View for JavaLocatorError {
    type V = ErrorView;

    closed spec fn view(&self) -> ErrorView {
        ErrorView { kind: self.kind, description: self.description@ }
    }
}

impl JavaLocatorError {
    /// An error of the given kind with the given message.
    pub fn new(kind: ErrorKind, description: String) -> (err: JavaLocatorError)
        ensures
            err@ == (ErrorView { kind, description: description@ }),
    {
        JavaLocatorError { kind, description }
    }

    /// The kind of the failure.
    pub fn kind(&self) -> (kind: ErrorKind)
        ensures
            kind == self@.kind,
    {
        self.kind
    }

    /// The message, borrowed.
    pub fn description(&self) -> (text: &str)
        ensures
            text@ == self@.description,
    {
        self.description.as_str()
    }

    /// The message, as an owned string: what printing the error shows.
    pub fn message(&self) -> (text: String)
        ensures
            text@ == self@.description,
    {
        self.description.clone()
    }
}

/// The error of a lookup command that ran and named no `java`.
pub open spec fn java_not_found() -> ErrorView {
    ErrorView {
        kind: ErrorKind::JavaNotFound,
        description: "Java is not installed or not in the system PATH"@,
    }
}

/// The error of a lookup command that could not be started, for the reason
/// that the system gave.
pub open spec fn launch_failure(lookup: Lookup, reason: Seq<char>) -> ErrorView {
    ErrorView {
        kind: ErrorKind::SubprocessLaunchFailure,
        description: "Failed to run command `"@ + lookup.spec_program() + "` ("@ + reason + ")"@,
    }
}

/// The error of a path that is no text; `shown` is how the path prints.
pub open spec fn invalid_path(shown: Seq<char>) -> ErrorView {
    ErrorView {
        kind: ErrorKind::InvalidEncoding,
        description: "Java path "@ + shown + " is invalid utf8"@,
    }
}

/// The error of output that is no text; `reason` says where it breaks.
pub open spec fn invalid_output(reason: Seq<char>) -> ErrorView {
    ErrorView { kind: ErrorKind::InvalidEncoding, description: reason }
}

/// The error of a chain of links that is longer than the locator follows.
pub open spec fn too_many_links(path: Seq<char>) -> ErrorView {
    ErrorView {
        kind: ErrorKind::JavaNotFound,
        description: "Too many levels of symbolic links at "@ + path,
    }
}

/// The error of a search that matched nothing below `java_home`.
pub open spec fn file_not_found(file_name: Seq<char>, java_home: Seq<char>) -> ErrorView {
    ErrorView {
        kind: ErrorKind::FileNotFound,
        description: "Could not find the "@ + file_name + " library in any subdirectory of "@
            + java_home,
    }
}

/// The error of a malformed pattern; `reason` says what is wrong with it.
pub open spec fn invalid_pattern(reason: Seq<char>) -> ErrorView {
    ErrorView { kind: ErrorKind::PatternError, description: reason }
}

impl JavaLocatorError {
    /// See [`java_not_found`].
    pub fn java_not_found() -> (err: JavaLocatorError)
        ensures
            err@ == java_not_found(),
    {
        JavaLocatorError::new(
            ErrorKind::JavaNotFound,
            String::from_str("Java is not installed or not in the system PATH"),
        )
    }

    /// See [`launch_failure`].
    pub fn launch_failure(lookup: Lookup, reason: &str) -> (err: JavaLocatorError)
        ensures
            err@ == launch_failure(lookup, reason@),
    {
        let mut text = String::from_str("Failed to run command `");
        text.append(lookup.program());
        text.append("` (");
        text.append(reason);
        text.append(")");
        JavaLocatorError::new(ErrorKind::SubprocessLaunchFailure, text)
    }

    /// See [`invalid_path`].
    pub fn invalid_path(shown: &str) -> (err: JavaLocatorError)
        ensures
            err@ == invalid_path(shown@),
    {
        let mut text = String::from_str("Java path ");
        text.append(shown);
        text.append(" is invalid utf8");
        JavaLocatorError::new(ErrorKind::InvalidEncoding, text)
    }

    /// See [`invalid_output`].
    pub fn invalid_output(reason: String) -> (err: JavaLocatorError)
        ensures
            err@ == invalid_output(reason@),
    {
        JavaLocatorError::new(ErrorKind::InvalidEncoding, reason)
    }

    /// See [`too_many_links`].
    pub fn too_many_links(path: &str) -> (err: JavaLocatorError)
        ensures
            err@ == too_many_links(path@),
    {
        let mut text = String::from_str("Too many levels of symbolic links at ");
        text.append(path);
        JavaLocatorError::new(ErrorKind::JavaNotFound, text)
    }

    /// See [`file_not_found`].
    pub fn file_not_found(file_name: &str, java_home: &str) -> (err: JavaLocatorError)
        ensures
            err@ == file_not_found(file_name@, java_home@),
    {
        let mut text = String::from_str("Could not find the ");
        text.append(file_name);
        text.append(" library in any subdirectory of ");
        text.append(java_home);
        JavaLocatorError::new(ErrorKind::FileNotFound, text)
    }

    /// See [`invalid_pattern`].
    pub fn invalid_pattern(reason: String) -> (err: JavaLocatorError)
        ensures
            err@ == invalid_pattern(reason@),
    {
        JavaLocatorError::new(ErrorKind::PatternError, reason)
    }
}

} // verus!
