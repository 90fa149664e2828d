//! SSH error types.
use vstd::prelude::*;

use crate::text::push_str;

verus! {

/// Category of an SSH failure.
#[derive(Debug, Clone, Copy, PartialEq, Eq, Structural)]
pub enum SshErrorKind {
    Configuration,
    Dns,
    TcpConnect,
    Proxy,
    Handshake,
    Authentication,
    HostKeyRejected,
    Channel,
    Timeout,
    Io,
    Unsupported,
}

/// The variant's name, as `Debug` prints it.
pub open spec fn ssh_kind_name(kind: SshErrorKind) -> Seq<char> {
    match kind {
        SshErrorKind::Configuration => "Configuration"@,
        SshErrorKind::Dns => "Dns"@,
        SshErrorKind::TcpConnect => "TcpConnect"@,
        SshErrorKind::Proxy => "Proxy"@,
        SshErrorKind::Handshake => "Handshake"@,
        SshErrorKind::Authentication => "Authentication"@,
        SshErrorKind::HostKeyRejected => "HostKeyRejected"@,
        SshErrorKind::Channel => "Channel"@,
        SshErrorKind::Timeout => "Timeout"@,
        SshErrorKind::Io => "Io"@,
        SshErrorKind::Unsupported => "Unsupported"@,
    }
}

impl SshErrorKind {
    /// The variant's name.
    pub fn name(&self) -> (s: &'static str)
        ensures
            s@ == ssh_kind_name(*self),
    {
        match self {
            SshErrorKind::Configuration => "Configuration",
            SshErrorKind::Dns => "Dns",
            SshErrorKind::TcpConnect => "TcpConnect",
            SshErrorKind::Proxy => "Proxy",
            SshErrorKind::Handshake => "Handshake",
            SshErrorKind::Authentication => "Authentication",
            SshErrorKind::HostKeyRejected => "HostKeyRejected",
            SshErrorKind::Channel => "Channel",
            SshErrorKind::Timeout => "Timeout",
            SshErrorKind::Io => "Io",
            SshErrorKind::Unsupported => "Unsupported",
        }
    }
}

/// An SSH failure: its kind and a human-readable message.
#[derive(Debug, PartialEq, Eq)]
pub struct SshError {
    pub kind: SshErrorKind,
    pub message: String,
}

/// Result of an SSH operation.
pub type SshResult<T> = Result<T, SshError>;

/// Model of an error: kind and message text.
pub struct SshErrorView {
    pub kind: SshErrorKind,
    pub message: Seq<char>,
}

impl View for SshError {
    type V = SshErrorView;

    open spec fn view(&self) -> SshErrorView {
        SshErrorView { kind: self.kind, message: self.message@ }
    }
}

impl SshError {
    /// An error of the given kind with the given message.
    pub fn new(kind: SshErrorKind, message: &str) -> (e: SshError)
        ensures
            e@ == (SshErrorView { kind, message: message@ }),
    {
        SshError { kind, message: message.to_owned() }
    }

    /// An error of the given kind that takes ownership of `message`.
    pub fn with_message(kind: SshErrorKind, message: String) -> (e: SshError)
        ensures
            e@ == (SshErrorView { kind, message: message@ }),
    {
        SshError { kind, message }
    }

    /// A configuration error.
    pub fn configuration(message: &str) -> (e: SshError)
        ensures
            e@ == (SshErrorView { kind: SshErrorKind::Configuration, message: message@ }),
    {
        SshError::new(SshErrorKind::Configuration, message)
    }

    /// The display text: the kind's name, a colon and the message.
    pub fn describe(&self) -> (s: String)
        ensures
            s@ == ssh_kind_name(self.kind) + ": "@ + self.message@,
    {
        let mut s = String::new();
        push_str(&mut s, self.kind.name());
        push_str(&mut s, ": ");
        push_str(&mut s, self.message.as_str());
        s
    }
}

impl Clone for SshError {
    fn clone(&self) -> (c: SshError)
        ensures
            c == *self,
    {
        SshError { kind: self.kind, message: self.message.clone() }
    }
}

} // verus!
