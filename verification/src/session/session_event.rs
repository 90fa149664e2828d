//! Identifiers and the events core services emit toward the UI layer.
use vstd::prelude::*;

use crate::session::session_handle::SessionState;

verus! {

/// Stable identifier for a logical shell/SFTP session.
#[derive(Debug, PartialEq, Eq, Hash, PartialOrd, Ord)]
pub struct SessionId(String);

impl View for SessionId {
    type V = Seq<char>;

    closed spec fn view(&self) -> Seq<char> {
        self.0@
    }
}

impl SessionId {
    /// A session identifier with the given text.
    pub fn new(value: &str) -> (id: SessionId)
        ensures
            id@ == value@,
    {
        SessionId(value.to_owned())
    }

    /// A session identifier that takes ownership of `value`.
    pub fn from_string(value: String) -> (id: SessionId)
        ensures
            id@ == value@,
    {
        SessionId(value)
    }

    /// The identifier's text.
    pub fn as_str(&self) -> (s: &str)
        ensures
            s@ == self@,
    {
        self.0.as_str()
    }

    /// Whether two identifiers have the same text.
    pub fn same_as(&self, other: &SessionId) -> (b: bool)
        ensures
            b == (self@ == other@),
    {
        self.0 == other.0
    }

    /// The identifier's text as a display string.
    pub fn to_text(&self) -> (s: String)
        ensures
            s@ == self@,
    {
        self.0.clone()
    }
}

impl Clone for SessionId {
    fn clone(&self) -> (c: SessionId)
        ensures
            c@ == self@,
    {
        SessionId(self.0.clone())
    }
}

/// Stable identifier for an application tab.
#[derive(Debug, PartialEq, Eq, Hash, PartialOrd, Ord)]
pub struct TabId(String);

impl View for TabId {
    type V = Seq<char>;

    closed spec fn view(&self) -> Seq<char> {
        self.0@
    }
}

impl TabId {
    /// A tab identifier with the given text.
    pub fn new(value: &str) -> (id: TabId)
        ensures
            id@ == value@,
    {
        TabId(value.to_owned())
    }

    /// A tab identifier that takes ownership of `value`.
    pub fn from_string(value: String) -> (id: TabId)
        ensures
            id@ == value@,
    {
        TabId(value)
    }

    /// The identifier's text.
    pub fn as_str(&self) -> (s: &str)
        ensures
            s@ == self@,
    {
        self.0.as_str()
    }

    /// Whether two identifiers have the same text.
    pub fn same_as(&self, other: &TabId) -> (b: bool)
        ensures
            b == (self@ == other@),
    {
        self.0 == other.0
    }

    /// The identifier's text as a display string.
    pub fn to_text(&self) -> (s: String)
        ensures
            s@ == self@,
    {
        self.0.clone()
    }
}

impl Clone for TabId {
    fn clone(&self) -> (c: TabId)
        ensures
            c@ == self@,
    {
        TabId(self.0.clone())
    }
}

/// Session lifecycle, tab and IO events consumed by UI and view-model code.
#[derive(Debug, PartialEq, Eq)]
pub enum SessionEvent {
    TabOpened { tab_id: TabId, session_id: SessionId },
    TabClosed { tab_id: TabId },
    StateChanged { session_id: SessionId, state: SessionState },
    Connecting { session_id: SessionId },
    Connected { session_id: SessionId },
    Disconnected { session_id: SessionId, reason: String },
    Error { session_id: SessionId, error: String },
    TerminalOutput { session_id: SessionId, bytes: Vec<u8> },
}

/// Mathematical model of an event: identifiers and texts as character sequences.
pub enum SessionEventView {
    TabOpened { tab_id: Seq<char>, session_id: Seq<char> },
    TabClosed { tab_id: Seq<char> },
    StateChanged { session_id: Seq<char>, state: SessionState },
    Connecting { session_id: Seq<char> },
    Connected { session_id: Seq<char> },
    Disconnected { session_id: Seq<char>, reason: Seq<char> },
    Error { session_id: Seq<char>, error: Seq<char> },
    TerminalOutput { session_id: Seq<char>, bytes: Seq<u8> },
}

impl View for SessionEvent {
    type V = SessionEventView;

    open spec fn view(&self) -> SessionEventView {
        match self {
            SessionEvent::TabOpened { tab_id, session_id } => SessionEventView::TabOpened {
                tab_id: tab_id@,
                session_id: session_id@,
            },
            SessionEvent::TabClosed { tab_id } => SessionEventView::TabClosed { tab_id: tab_id@ },
            SessionEvent::StateChanged { session_id, state } => SessionEventView::StateChanged {
                session_id: session_id@,
                state: *state,
            },
            SessionEvent::Connecting { session_id } => SessionEventView::Connecting {
                session_id: session_id@,
            },
            SessionEvent::Connected { session_id } => SessionEventView::Connected {
                session_id: session_id@,
            },
            SessionEvent::Disconnected { session_id, reason } => SessionEventView::Disconnected {
                session_id: session_id@,
                reason: reason@,
            },
            SessionEvent::Error { session_id, error } => SessionEventView::Error {
                session_id: session_id@,
                error: error@,
            },
            SessionEvent::TerminalOutput { session_id, bytes } => SessionEventView::TerminalOutput {
                session_id: session_id@,
                bytes: bytes@,
            },
        }
    }
}

} // verus!
