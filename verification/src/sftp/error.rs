//! SFTP error types.
use vstd::prelude::*;

use crate::text::push_str;

verus! {

/// Category of an SFTP failure.
#[derive(Debug, Clone, Copy, PartialEq, Eq, Structural)]
pub enum SftpErrorKind {
    NotFound,
    AlreadyExists,
    PermissionDenied,
    InvalidPath,
    TransferCancelled,
    Backend,
}

/// The variant's name, as `Debug` prints it.
pub open spec fn kind_name(kind: SftpErrorKind) -> Seq<char> {
    match kind {
        SftpErrorKind::NotFound => "NotFound"@,
        SftpErrorKind::AlreadyExists => "AlreadyExists"@,
        SftpErrorKind::PermissionDenied => "PermissionDenied"@,
        SftpErrorKind::InvalidPath => "InvalidPath"@,
        SftpErrorKind::TransferCancelled => "TransferCancelled"@,
        SftpErrorKind::Backend => "Backend"@,
    }
}

impl SftpErrorKind {
    /// The variant's name.
    pub fn name(&self) -> (s: &'static str)
        ensures
            s@ == kind_name(*self),
    {
        match self {
            SftpErrorKind::NotFound => "NotFound",
            SftpErrorKind::AlreadyExists => "AlreadyExists",
            SftpErrorKind::PermissionDenied => "PermissionDenied",
            SftpErrorKind::InvalidPath => "InvalidPath",
            SftpErrorKind::TransferCancelled => "TransferCancelled",
            SftpErrorKind::Backend => "Backend",
        }
    }
}

/// An SFTP failure: its kind and a human-readable message.
#[derive(Debug, PartialEq, Eq)]
pub struct SftpError {
    pub kind: SftpErrorKind,
    pub message: String,
}

/// Result of an SFTP operation.
pub type SftpResult<T> = Result<T, SftpError>;

/// Model of an error: kind and message text.
pub struct SftpErrorView {
    pub kind: SftpErrorKind,
    pub message: Seq<char>,
}

impl View for SftpError {
    type V = SftpErrorView;

    open spec fn view(&self) -> SftpErrorView {
        SftpErrorView { kind: self.kind, message: self.message@ }
    }
}

impl SftpError {
    /// An error of the given kind with the given message.
    pub fn new(kind: SftpErrorKind, message: &str) -> (e: SftpError)
        ensures
            e@ == (SftpErrorView { kind, message: message@ }),
    {
        SftpError { kind, message: message.to_owned() }
    }

    /// An error of the given kind that takes ownership of `message`.
    pub fn with_message(kind: SftpErrorKind, message: String) -> (e: SftpError)
        ensures
            e@ == (SftpErrorView { kind, message: message@ }),
    {
        SftpError { kind, message }
    }

    /// The display text: the kind's name, a colon and the message.
    pub fn describe(&self) -> (s: String)
        ensures
            s@ == kind_name(self.kind) + ": "@ + self.message@,
    {
        let mut s = String::new();
        push_str(&mut s, self.kind.name());
        push_str(&mut s, ": ");
        push_str(&mut s, self.message.as_str());
        s
    }
}

impl Clone for SftpError {
    fn clone(&self) -> (c: SftpError)
        ensures
            c@ == self@,
    {
        SftpError { kind: self.kind, message: self.message.clone() }
    }
}

} // verus!
