//! Lightweight session handle and state model.
use vstd::prelude::*;

use crate::session::session_event::{SessionId, TabId};

verus! {

/// High-level lifecycle state for a session.
#[derive(Debug, Clone, Copy, PartialEq, Eq, Structural)]
pub enum SessionState {
    /// The session exists but has not started connecting.
    Idle,
    /// Connection establishment is in progress.
    Connecting,
    /// The session is connected and ready.
    Connected,
    /// The session disconnected normally.
    Disconnected,
    /// Connecting or running failed.
    Failed,
}

/// Public handle for a managed session.
#[derive(Debug, PartialEq, Eq)]
pub struct SessionHandle {
    id: SessionId,
    state: SessionState,
    active_tab: Option<TabId>,
}

pub struct SessionHandleView {
    pub id: Seq<char>,
    pub state: SessionState,
    pub active_tab: Option<Seq<char>>,
}

pub open spec fn opt_tab_view(t: Option<TabId>) -> Option<Seq<char>> {
    match t {
        Some(id) => Some(id@),
        None => None,
    }
}

impl View for SessionHandle {
    type V = SessionHandleView;

    closed spec fn view(&self) -> SessionHandleView {
        SessionHandleView { id: self.id@, state: self.state, active_tab: opt_tab_view(self.active_tab) }
    }
}

fn clone_opt_tab(t: &Option<TabId>) -> (c: Option<TabId>)
    ensures
        opt_tab_view(c) == opt_tab_view(*t),
{
    match t {
        Some(id) => Some(id.clone()),
        None => None,
    }
}

impl SessionHandle {
    /// An idle handle with no tab.
    pub fn new(id: SessionId) -> (h: SessionHandle)
        ensures
            h@ == (SessionHandleView { id: id@, state: SessionState::Idle, active_tab: None }),
    {
        SessionHandle { id, state: SessionState::Idle, active_tab: None }
    }

    /// The session identifier.
    pub fn id(&self) -> (id: &SessionId)
        ensures
            id@ == self@.id,
    {
        &self.id
    }

    /// The current lifecycle state.
    pub fn state(&self) -> (s: SessionState)
        ensures
            s == self@.state,
    {
        self.state
    }

    /// Updates the lifecycle state.
    pub fn set_state(&mut self, state: SessionState)
        ensures
            final(self)@ == (SessionHandleView { state, ..old(self)@ }),
    {
        self.state = state;
    }

    /// The tab currently showing this session.
    pub fn active_tab(&self) -> (t: &Option<TabId>)
        ensures
            opt_tab_view(*t) == self@.active_tab,
    {
        &self.active_tab
    }

    /// Records the tab showing this session.
    pub fn set_active_tab(&mut self, tab: Option<TabId>)
        ensures
            final(self)@ == (SessionHandleView { active_tab: opt_tab_view(tab), ..old(self)@ }),
    {
        self.active_tab = tab;
    }
}

impl Clone for SessionHandle {
    fn clone(&self) -> (c: SessionHandle)
        ensures
            c@ == self@,
    {
        SessionHandle { id: self.id.clone(), state: self.state, active_tab: clone_opt_tab(&self.active_tab) }
    }
}

} // verus!
