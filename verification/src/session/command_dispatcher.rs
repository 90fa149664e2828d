//! Commands from the UI to the core layer, and the dispatcher that applies
//! them to the session registry.
use vstd::prelude::*;

use crate::session::session_event::{SessionEvent, SessionEventView, SessionId, TabId};
use crate::session::session_handle::SessionState;
use crate::session::session_manager::{
    spec_close_tab, spec_open_tab, spec_set_state, ManagerView, SessionManager,
};
use crate::text::push_str;

verus! {

/// Commands the core layer accepts from application code.
#[derive(Debug, PartialEq, Eq)]
pub enum SessionCommand {
    /// Open a session in a tab.
    OpenSession { tab_id: TabId, session_id: SessionId },
    /// Close a session and its tab.
    CloseSession { session_id: SessionId },
    /// Send terminal input bytes to a session.
    SendTerminalInput { session_id: SessionId, bytes: Vec<u8> },
    /// Resize a session's remote PTY.
    ResizeTerminal { session_id: SessionId, columns: u16, rows: u16 },
    /// Record a session's new lifecycle state.
    SetSessionState { session_id: SessionId, state: SessionState },
}

/// A command that could not be dispatched.
#[derive(Debug, PartialEq, Eq)]
pub struct CommandDispatchError {
    message: String,
}

impl View for CommandDispatchError {
    type V = Seq<char>;

    closed spec fn view(&self) -> Seq<char> {
        self.message@
    }
}

impl CommandDispatchError {
    /// An error with a human-readable message.
    pub fn new(message: &str) -> (e: CommandDispatchError)
        ensures
            e@ == message@,
    {
        CommandDispatchError { message: message.to_owned() }
    }

    /// The message.
    pub fn message(&self) -> (m: &str)
        ensures
            m@ == self@,
    {
        self.message.as_str()
    }
}

impl Clone for CommandDispatchError {
    fn clone(&self) -> (c: CommandDispatchError)
        ensures
            c@ == self@,
    {
        CommandDispatchError { message: self.message.clone() }
    }
}

/// Applies session commands.
pub trait CommandDispatcher {
    /// Dispatches one command and returns the events it caused.
    fn dispatch(&mut self, command: SessionCommand) -> Result<Vec<SessionEvent>, CommandDispatchError>;
}

/// The message for a command on an unregistered session.
pub open spec fn unknown_session_message(id: Seq<char>) -> Seq<char> {
    "unknown session "@ + id
}

pub open spec fn event_views(v: Seq<SessionEvent>) -> Seq<SessionEventView> {
    v.map_values(|e: SessionEvent| e@)
}

/// The registry after closing a session: its tab closed if it shows one,
/// else the session marked disconnected.
pub open spec fn spec_close_session(m: ManagerView, id: Seq<char>) -> ManagerView {
    let i = m.session_index(id).unwrap() as int;
    match m.sessions[i].active_tab {
        Some(t) => if m.tab_index(t) is Some {
            spec_close_tab(m, t)
        } else {
            spec_set_state(m, id, SessionState::Disconnected)
        },
        None => spec_set_state(m, id, SessionState::Disconnected),
    }
}

/// The dispatcher over the in-memory session registry.
#[derive(Debug)]
pub struct CoreCommandDispatcher {
    manager: SessionManager,
}

impl CoreCommandDispatcher {
    #[verifier::type_invariant]
    spec fn registry_well_formed(&self) -> bool {
        self.manager.wf()
    }

    /// The registry's model.
    pub closed spec fn registry(&self) -> ManagerView {
        self.manager@
    }

    /// A dispatcher over an empty registry.
    pub fn new() -> (d: CoreCommandDispatcher)
        ensures
            d.registry().sessions.len() == 0,
            d.registry().tabs.len() == 0,
            d.registry().active_tab is None,
    {
        CoreCommandDispatcher { manager: SessionManager::new() }
    }

    /// The registry.
    pub fn manager(&self) -> (m: &SessionManager)
        ensures
            m@ == self.registry(),
            m.wf(),
    {
        proof {
            use_type_invariant(self);
        }
        &self.manager
    }

    fn unknown_session(id: &SessionId) -> (e: CommandDispatchError)
        ensures
            e@ == unknown_session_message(id@),
    {
        let mut message = String::new();
        push_str(&mut message, "unknown session ");
        push_str(&mut message, id.as_str());
        CommandDispatchError { message }
    }
}

impl Default for CoreCommandDispatcher {
    fn default() -> (d: CoreCommandDispatcher)
        ensures
            d.registry().sessions.len() == 0,
            d.registry().tabs.len() == 0,
            d.registry().active_tab is None,
    {
        CoreCommandDispatcher::new()
    }
}

impl CommandDispatcher for CoreCommandDispatcher {
    /// Opening registers the session, opens its tab and reports `TabOpened`;
    /// setting a state reports `StateChanged`; closing closes the session's tab
    /// (or marks it disconnected); input and resizes need a registered session
    /// and report nothing. Commands on unregistered sessions (other than
    /// opening) fail and change nothing.
    fn dispatch(&mut self, command: SessionCommand) -> (r: Result<Vec<SessionEvent>, CommandDispatchError>)
        ensures
            match command {
                SessionCommand::OpenSession { tab_id, session_id } => r matches Ok(events)
                    && event_views(events@) == seq![
                    SessionEventView::TabOpened { tab_id: tab_id@, session_id: session_id@ },
                ] && final(self).registry() == spec_open_tab(old(self).registry(), tab_id@, session_id@),
                SessionCommand::SetSessionState { session_id, state } => if old(self).registry().session_index(
                    session_id@,
                ) is Some {
                    r matches Ok(events) && event_views(events@) == seq![
                        SessionEventView::StateChanged { session_id: session_id@, state },
                    ] && final(self).registry() == spec_set_state(old(self).registry(), session_id@, state)
                } else {
                    r matches Err(e) && e@ == unknown_session_message(session_id@) && final(self).registry()
                        == old(self).registry()
                },
                SessionCommand::CloseSession { session_id } => if old(self).registry().session_index(
                    session_id@,
                ) is Some {
                    r is Ok && final(self).registry() == spec_close_session(old(self).registry(), session_id@)
                } else {
                    r matches Err(e) && e@ == unknown_session_message(session_id@) && final(self).registry()
                        == old(self).registry()
                },
                SessionCommand::SendTerminalInput { session_id, .. } => final(self).registry() == old(
                    self,
                ).registry() && if old(self).registry().session_index(session_id@) is Some {
                    r matches Ok(events) && events@.len() == 0
                } else {
                    r matches Err(e) && e@ == unknown_session_message(session_id@)
                },
                SessionCommand::ResizeTerminal { session_id, .. } => final(self).registry() == old(
                    self,
                ).registry() && if old(self).registry().session_index(session_id@) is Some {
                    r matches Ok(events) && events@.len() == 0
                } else {
                    r matches Err(e) && e@ == unknown_session_message(session_id@)
                },
            },
    {
        proof {
            use_type_invariant(&*self);
        }
        let mut manager = SessionManager::new();
        std::mem::swap(&mut manager, &mut self.manager);
        let r = Self::apply(&mut manager, command);
        self.manager = manager;
        r
    }
}

impl CoreCommandDispatcher {
    fn apply(manager: &mut SessionManager, command: SessionCommand) -> (r: Result<Vec<SessionEvent>, CommandDispatchError>)
        requires
            old(manager).wf(),
        ensures
            final(manager).wf(),
            match command {
                SessionCommand::OpenSession { tab_id, session_id } => r matches Ok(events)
                    && event_views(events@) == seq![
                    SessionEventView::TabOpened { tab_id: tab_id@, session_id: session_id@ },
                ] && final(manager)@ == spec_open_tab(old(manager)@, tab_id@, session_id@),
                SessionCommand::SetSessionState { session_id, state } => if old(manager)@.session_index(
                    session_id@,
                ) is Some {
                    r matches Ok(events) && event_views(events@) == seq![
                        SessionEventView::StateChanged { session_id: session_id@, state },
                    ] && final(manager)@ == spec_set_state(old(manager)@, session_id@, state)
                } else {
                    r matches Err(e) && e@ == unknown_session_message(session_id@) && final(manager)@
                        == old(manager)@
                },
                SessionCommand::CloseSession { session_id } => if old(manager)@.session_index(
                    session_id@,
                ) is Some {
                    r is Ok && final(manager)@ == spec_close_session(old(manager)@, session_id@)
                } else {
                    r matches Err(e) && e@ == unknown_session_message(session_id@) && final(manager)@
                        == old(manager)@
                },
                SessionCommand::SendTerminalInput { session_id, .. } => final(manager)@ == old(manager)@
                    && if old(manager)@.session_index(session_id@) is Some {
                    r matches Ok(events) && events@.len() == 0
                } else {
                    r matches Err(e) && e@ == unknown_session_message(session_id@)
                },
                SessionCommand::ResizeTerminal { session_id, .. } => final(manager)@ == old(manager)@
                    && if old(manager)@.session_index(session_id@) is Some {
                    r matches Ok(events) && events@.len() == 0
                } else {
                    r matches Err(e) && e@ == unknown_session_message(session_id@)
                },
            },
    {
        let ghost m0 = manager@;
        match command {
            SessionCommand::OpenSession { tab_id, session_id } => {
                let event = manager.open_tab(tab_id, session_id);
                let ghost ev = event@;
                let mut events: Vec<SessionEvent> = Vec::new();
                events.push(event);
                assert(event_views(events@) =~= seq![ev]);
                Ok(events)
            },
            SessionCommand::SetSessionState { session_id, state } => {
                match manager.set_state(&session_id, state) {
                    Some(event) => {
                        let ghost ev = event@;
                        let mut events: Vec<SessionEvent> = Vec::new();
                        events.push(event);
                        assert(event_views(events@) =~= seq![ev]);
                        Ok(events)
                    },
                    None => Err(Self::unknown_session(&session_id)),
                }
            },
            SessionCommand::CloseSession { session_id } => {
                let tab = match manager.get(&session_id) {
                    Some(handle) => match handle.active_tab() {
                        Some(t) => Some(t.clone()),
                        None => None,
                    },
                    None => {
                        return Err(Self::unknown_session(&session_id));
                    },
                };
                let mut events: Vec<SessionEvent> = Vec::new();
                match tab {
                    Some(t) => {
                        match manager.close_tab(&t) {
                            Some(event) => {
                                events.push(event);
                            },
                            None => {
                                match manager.set_state(&session_id, SessionState::Disconnected) {
                                    Some(event) => events.push(event),
                                    None => {},
                                }
                            },
                        }
                    },
                    None => {
                        match manager.set_state(&session_id, SessionState::Disconnected) {
                            Some(event) => events.push(event),
                            None => {},
                        }
                    },
                }
                Ok(events)
            },
            SessionCommand::SendTerminalInput { session_id, .. } => {
                match manager.get(&session_id) {
                    Some(_) => Ok(Vec::new()),
                    None => Err(Self::unknown_session(&session_id)),
                }
            },
            SessionCommand::ResizeTerminal { session_id, .. } => {
                match manager.get(&session_id) {
                    Some(_) => Ok(Vec::new()),
                    None => Err(Self::unknown_session(&session_id)),
                }
            },
        }
    }
}

} // verus!
