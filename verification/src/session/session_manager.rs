//! In-memory session and tab registry used by core services.
use vstd::prelude::*;

use crate::session::session_event::{SessionEvent, SessionEventView, SessionId, TabId};
use crate::session::session_handle::{SessionHandle, SessionHandleView, SessionState};
use crate::session::workspace_layout::{initial_layout, WorkspaceLayout};
use crate::text::{index_in, lemma_index_in, lemma_index_in_unique};

verus! {

/// Runtime state for one tab.
#[derive(Debug, PartialEq, Eq)]
pub struct ManagedTab {
    id: TabId,
    session_id: SessionId,
    layout: WorkspaceLayout,
}

/// Model of a tab: its ids as character sequences, and its layout.
pub struct TabView {
    pub id: Seq<char>,
    pub session_id: Seq<char>,
    pub layout: WorkspaceLayout,
}

impl View for ManagedTab {
    type V = TabView;

    closed spec fn view(&self) -> TabView {
        TabView { id: self.id@, session_id: self.session_id@, layout: self.layout }
    }
}

impl ManagedTab {
    /// The tab id.
    pub fn id(&self) -> (id: &TabId)
        ensures
            id@ == self@.id,
    {
        &self.id
    }

    /// The primary session shown in this tab.
    pub fn session_id(&self) -> (id: &SessionId)
        ensures
            id@ == self@.session_id,
    {
        &self.session_id
    }

    /// The tab's split layout.
    pub fn layout(&self) -> (l: &WorkspaceLayout)
        ensures
            *l == self@.layout,
    {
        &self.layout
    }

    /// The tab's split layout, for changes.
    pub fn layout_mut(&mut self) -> (l: &mut WorkspaceLayout)
        ensures
            *l == old(self)@.layout,
            final(self)@ == (TabView { layout: *final(l), ..old(self)@ }),
    {
        &mut self.layout
    }
}

/// Model of the registry.
pub struct ManagerView {
    /// Session handles in creation order; ids are distinct.
    pub sessions: Seq<SessionHandleView>,
    /// Tabs in opening order; ids are distinct.
    pub tabs: Seq<TabView>,
    pub active_tab: Option<Seq<char>>,
}

pub open spec fn session_ids(s: Seq<SessionHandleView>) -> Seq<Seq<char>> {
    s.map_values(|h: SessionHandleView| h.id)
}

pub open spec fn tab_ids(t: Seq<TabView>) -> Seq<Seq<char>> {
    t.map_values(|t: TabView| t.id)
}

impl ManagerView {
    pub open spec fn session_index(self, id: Seq<char>) -> Option<nat> {
        index_in(session_ids(self.sessions), id)
    }

    pub open spec fn tab_index(self, id: Seq<char>) -> Option<nat> {
        index_in(tab_ids(self.tabs), id)
    }

    /// Registry invariant: distinct ids, the active tab is open, each tab's
    /// session is registered and each layout is well formed.
    pub open spec fn wf(self) -> bool {
        &&& session_ids(self.sessions).no_duplicates()
        &&& tab_ids(self.tabs).no_duplicates()
        &&& (self.active_tab matches Some(t) ==> tab_ids(self.tabs).contains(t))
        &&& forall|i: int|
            0 <= i < self.tabs.len() ==> session_ids(self.sessions).contains(
                #[trigger] self.tabs[i].session_id,
            ) && self.tabs[i].layout.wf()
    }
}

/// Registering a session: an idle handle is appended unless the id is known.
pub open spec fn spec_create_session(m: ManagerView, id: Seq<char>) -> ManagerView {
    if session_ids(m.sessions).contains(id) {
        m
    } else {
        ManagerView {
            sessions: m.sessions.push(
                SessionHandleView { id, state: SessionState::Idle, active_tab: None },
            ),
            ..m
        }
    }
}

/// Opening a tab: the session is registered and points at the tab, a tab with a
/// fresh layout is added unless the tab id is known, and the tab becomes active.
pub open spec fn spec_open_tab(m: ManagerView, tab: Seq<char>, session: Seq<char>) -> ManagerView {
    let m1 = spec_create_session(m, session);
    let i = m1.session_index(session).unwrap() as int;
    ManagerView {
        sessions: m1.sessions.update(
            i,
            SessionHandleView { active_tab: Some(tab), ..m1.sessions[i] },
        ),
        tabs: if tab_ids(m1.tabs).contains(tab) {
            m1.tabs
        } else {
            m1.tabs.push(TabView { id: tab, session_id: session, layout: initial_layout() })
        },
        active_tab: Some(tab),
    }
}

/// Closing an open tab: the tab is removed, its session loses its tab and is
/// disconnected, and if it was active the first remaining tab (if any) becomes active.
pub open spec fn spec_close_tab(m: ManagerView, tab: Seq<char>) -> ManagerView {
    let j = m.tab_index(tab).unwrap() as int;
    let closed = m.tabs[j];
    let tabs = m.tabs.remove(j);
    ManagerView {
        sessions: match m.session_index(closed.session_id) {
            Some(i) => m.sessions.update(
                i as int,
                SessionHandleView {
                    active_tab: None,
                    state: SessionState::Disconnected,
                    ..m.sessions[i as int]
                },
            ),
            None => m.sessions,
        },
        tabs,
        active_tab: if m.active_tab == Some(tab) {
            if tabs.len() > 0 {
                Some(tabs[0].id)
            } else {
                None
            }
        } else {
            m.active_tab
        },
    }
}

/// Setting the state of a registered session.
pub open spec fn spec_set_state(m: ManagerView, id: Seq<char>, state: SessionState) -> ManagerView {
    match m.session_index(id) {
        Some(i) => ManagerView {
            sessions: m.sessions.update(i as int, SessionHandleView { state, ..m.sessions[i as int] }),
            ..m
        },
        None => m,
    }
}

/// Tracks session handles and tab layouts.
#[derive(Debug)]
pub struct SessionManager {
    sessions: Vec<SessionHandle>,
    tabs: Vec<ManagedTab>,
    active_tab: Option<TabId>,
}

impl View for SessionManager {
    type V = ManagerView;

    closed spec fn view(&self) -> ManagerView {
        ManagerView {
            sessions: self.sessions@.map_values(|h: SessionHandle| h@),
            tabs: self.tabs@.map_values(|t: ManagedTab| t@),
            active_tab: crate::session::session_handle::opt_tab_view(self.active_tab),
        }
    }
}

proof fn lemma_ids_push_session(s: Seq<SessionHandleView>, h: SessionHandleView)
    ensures
        session_ids(s.push(h)) == session_ids(s).push(h.id),
{
    assert(session_ids(s.push(h)) =~= session_ids(s).push(h.id));
}

proof fn lemma_ids_update_session(s: Seq<SessionHandleView>, i: int, h: SessionHandleView)
    requires
        0 <= i < s.len(),
        h.id == s[i].id,
    ensures
        session_ids(s.update(i, h)) == session_ids(s),
{
    assert(session_ids(s.update(i, h)) =~= session_ids(s));
}

impl SessionManager {
    pub open spec fn wf(&self) -> bool {
        self@.wf()
    }

    /// An empty registry.
    pub fn new() -> (m: SessionManager)
        ensures
            m.wf(),
            m@.sessions.len() == 0,
            m@.tabs.len() == 0,
            m@.active_tab.is_none(),
    {
        let m = SessionManager { sessions: Vec::new(), tabs: Vec::new(), active_tab: None };
        assert(m@.sessions =~= Seq::<SessionHandleView>::empty());
        assert(m@.tabs =~= Seq::<TabView>::empty());
        assert(session_ids(m@.sessions) =~= Seq::<Seq<char>>::empty());
        assert(tab_ids(m@.tabs) =~= Seq::<Seq<char>>::empty());
        m
    }

    fn session_position(&self, id: &SessionId) -> (r: Option<usize>)
        ensures
            match r {
                Some(i) => self@.session_index(id@) == Some(i as nat) && i < self.sessions@.len()
                    && self@.sessions[i as int].id == id@ && self.sessions@[i as int]@
                    == self@.sessions[i as int],
                None => self@.session_index(id@) is None && !session_ids(self@.sessions).contains(id@),
            },
    {
        let ghost ids = session_ids(self@.sessions);
        proof {
            lemma_index_in(ids, id@);
        }
        let n = self.sessions.len();
        let mut i: usize = 0;
        while i < n
            invariant
                i <= n,
                n == self.sessions@.len(),
                ids == session_ids(self@.sessions),
                ids.len() == n,
                forall|j: int| 0 <= j < i ==> ids[j] != id@,
            decreases n - i,
        {
            if self.sessions[i].id().same_as(id) {
                proof {
                    lemma_index_in(ids, id@);
                    assert(ids[i as int] == id@);
                }
                return Some(i);
            }
            i = i + 1;
        }
        proof {
            lemma_index_in(ids, id@);
            if ids.contains(id@) {
                let k = choose|k: int| 0 <= k < ids.len() && ids[k] == id@;
                assert(ids[k] != id@);
            }
        }
        None
    }

    fn tab_position(&self, id: &TabId) -> (r: Option<usize>)
        ensures
            match r {
                Some(i) => self@.tab_index(id@) == Some(i as nat) && i < self.tabs@.len()
                    && self@.tabs[i as int].id == id@ && self.tabs@[i as int]@
                    == self@.tabs[i as int],
                None => self@.tab_index(id@) is None && !tab_ids(self@.tabs).contains(id@),
            },
    {
        let ghost ids = tab_ids(self@.tabs);
        proof {
            lemma_index_in(ids, id@);
        }
        let n = self.tabs.len();
        let mut i: usize = 0;
        while i < n
            invariant
                i <= n,
                n == self.tabs@.len(),
                ids == tab_ids(self@.tabs),
                ids.len() == n,
                forall|j: int| 0 <= j < i ==> ids[j] != id@,
            decreases n - i,
        {
            if self.tabs[i].id.same_as(id) {
                proof {
                    lemma_index_in(ids, id@);
                    assert(ids[i as int] == id@);
                }
                return Some(i);
            }
            i = i + 1;
        }
        proof {
            lemma_index_in(ids, id@);
            if ids.contains(id@) {
                let k = choose|k: int| 0 <= k < ids.len() && ids[k] == id@;
                assert(ids[k] != id@);
            }
        }
        None
    }

    /// Registers an idle session unless it exists, and returns its handle.
    pub fn create_session(&mut self, session_id: SessionId) -> (h: SessionHandle)
        requires
            old(self).wf(),
        ensures
            final(self).wf(),
            final(self)@ == spec_create_session(old(self)@, session_id@),
            final(self)@.session_index(session_id@) matches Some(i) && h@
                == final(self)@.sessions[i as int],
    {
        proof {
            lemma_index_in(session_ids(self@.sessions), session_id@);
        }
        match self.session_position(&session_id) {
            Some(i) => {
                let h = self.sessions[i].clone();
                proof {
                    assert(self@.sessions[i as int] == self.sessions@[i as int]@);
                }
                h
            },
            None => {
                let ghost before = self@;
                let h = SessionHandle::new(session_id);
                let copy = h.clone();
                self.sessions.push(h);
                proof {
                    assert(self@.sessions =~= before.sessions.push(copy@));
                    lemma_ids_push_session(before.sessions, copy@);
                    let ids = session_ids(self@.sessions);
                    assert forall|a: int, b: int|
                        0 <= a < ids.len() && 0 <= b < ids.len() && a != b implies ids[a]
                        != ids[b] by {
                        if a == before.sessions.len() {
                            assert(ids[b] == session_ids(before.sessions)[b]);
                        } else if b == before.sessions.len() {
                            assert(ids[a] == session_ids(before.sessions)[a]);
                        } else {
                            assert(ids[a] == session_ids(before.sessions)[a]);
                            assert(ids[b] == session_ids(before.sessions)[b]);
                        }
                    }
                    assert forall|k: int| 0 <= k < self@.tabs.len() implies session_ids(
                        self@.sessions,
                    ).contains(#[trigger] self@.tabs[k].session_id) && self@.tabs[k].layout.wf() by {
                        let x = self@.tabs[k].session_id;
                        assert(session_ids(before.sessions).contains(x));
                        let q = choose|q: int|
                            0 <= q < session_ids(before.sessions).len() && session_ids(
                                before.sessions,
                            )[q] == x;
                        assert(ids[q] == x);
                    }
                    lemma_index_in_unique(ids, before.sessions.len() as int);
                }
                copy
            },
        }
    }

    /// Opens a tab for a session (registering the session if needed), makes it
    /// active, and returns the `TabOpened` event.
    pub fn open_tab(&mut self, tab_id: TabId, session_id: SessionId) -> (e: SessionEvent)
        requires
            old(self).wf(),
        ensures
            final(self).wf(),
            final(self)@ == spec_open_tab(old(self)@, tab_id@, session_id@),
            e@ == (SessionEventView::TabOpened { tab_id: tab_id@, session_id: session_id@ }),
    {
        let ghost m0 = self@;
        self.create_session(session_id.clone());
        let ghost m1 = self@;
        let i = match self.session_position(&session_id) {
            Some(i) => i,
            None => {
                proof {
                    lemma_index_in(session_ids(m0.sessions), session_id@);
                    lemma_index_in(session_ids(m1.sessions), session_id@);
                    if !session_ids(m0.sessions).contains(session_id@) {
                        lemma_ids_push_session(m0.sessions, m1.sessions.last());
                        assert(session_ids(m1.sessions).last() == session_id@);
                        assert(session_ids(m1.sessions).contains(session_id@));
                    }
                }
                return SessionEvent::TabOpened { tab_id, session_id };
            },
        };
        let mut h = self.sessions[i].clone();
        h.set_active_tab(Some(tab_id.clone()));
        let ghost hv = h@;
        self.sessions.set(i, h);
        proof {
            assert(self@.sessions =~= m1.sessions.update(i as int, hv));
            lemma_ids_update_session(m1.sessions, i as int, hv);
        }
        let ghost m2 = self@;
        match self.tab_position(&tab_id) {
            Some(_) => {},
            None => {
                let tab = ManagedTab {
                    id: tab_id.clone(),
                    session_id: session_id.clone(),
                    layout: WorkspaceLayout::new(),
                };
                let ghost tv = tab@;
                self.tabs.push(tab);
                proof {
                    assert(self@.tabs =~= m2.tabs.push(tv));
                    assert(tab_ids(self@.tabs) =~= tab_ids(m2.tabs).push(tv.id));
                    lemma_index_in(tab_ids(m2.tabs), tab_id@);
                    let ids = tab_ids(self@.tabs);
                    assert forall|a: int, b: int|
                        0 <= a < ids.len() && 0 <= b < ids.len() && a != b implies ids[a]
                        != ids[b] by {
                        if a == m2.tabs.len() {
                            assert(ids[b] == tab_ids(m2.tabs)[b]);
                        } else if b == m2.tabs.len() {
                            assert(ids[a] == tab_ids(m2.tabs)[a]);
                        } else {
                            assert(ids[a] == tab_ids(m2.tabs)[a]);
                            assert(ids[b] == tab_ids(m2.tabs)[b]);
                        }
                    }
                }
            },
        }
        self.active_tab = Some(tab_id.clone());
        proof {
            crate::session::workspace_layout::lemma_initial_layout();
            lemma_index_in(tab_ids(self@.tabs), tab_id@);
            lemma_index_in(tab_ids(m2.tabs), tab_id@);
            let ids = tab_ids(self@.tabs);
            if !tab_ids(m2.tabs).contains(tab_id@) {
                assert(ids[m2.tabs.len() as int] == tab_id@);
            }
            assert(ids.contains(tab_id@));
            assert forall|k: int| 0 <= k < self@.tabs.len() implies session_ids(
                self@.sessions,
            ).contains(#[trigger] self@.tabs[k].session_id) && self@.tabs[k].layout.wf() by {
                assert(session_ids(self@.sessions) == session_ids(m1.sessions));
                if k < m2.tabs.len() {
                    assert(self@.tabs[k] == m1.tabs[k]);
                    assert(m1.wf());
                    assert(session_ids(m1.sessions).contains(m1.tabs[k].session_id));
                } else {
                    assert(self@.tabs[k].session_id == session_id@);
                    assert(self@.tabs[k].layout == initial_layout());
                    assert(session_ids(self@.sessions)[i as int] == session_id@);
                }
            }
        }
        SessionEvent::TabOpened { tab_id, session_id }
    }

    /// Closes a tab, disconnecting its session; `None` when the tab is unknown.
    pub fn close_tab(&mut self, tab_id: &TabId) -> (e: Option<SessionEvent>)
        requires
            old(self).wf(),
        ensures
            final(self).wf(),
            old(self)@.tab_index(tab_id@) is None ==> e is None && final(self)@ == old(self)@,
            old(self)@.tab_index(tab_id@) is Some ==> (e matches Some(ev) && ev@
                == (SessionEventView::TabClosed { tab_id: tab_id@ }) && final(self)@
                == spec_close_tab(old(self)@, tab_id@)),
            old(self)@.active_tab != Some(tab_id@) ==> final(self)@.active_tab == old(self)@.active_tab,
    {
        let ghost m0 = self@;
        let j = match self.tab_position(tab_id) {
            Some(j) => j,
            None => {
                return None;
            },
        };
        let tab = self.tabs.remove(j);
        proof {
            assert(self@.tabs =~= m0.tabs.remove(j as int));
            assert(tab@ == m0.tabs[j as int]);
        }
        let ghost m1 = self@;
        match self.session_position(&tab.session_id) {
            Some(i) => {
                let mut h = self.sessions[i].clone();
                h.set_active_tab(None);
                h.set_state(SessionState::Disconnected);
                let ghost hv = h@;
                self.sessions.set(i, h);
                proof {
                    assert(self@.sessions =~= m1.sessions.update(i as int, hv));
                    lemma_ids_update_session(m1.sessions, i as int, hv);
                }
            },
            None => {},
        }
        let was_active = match &self.active_tab {
            Some(a) => a.same_as(tab_id),
            None => false,
        };
        if was_active {
            if self.tabs.len() > 0 {
                self.active_tab = Some(self.tabs[0].id.clone());
            } else {
                self.active_tab = None;
            }
        }
        proof {
            let old_ids = tab_ids(m0.tabs);
            let ids = tab_ids(self@.tabs);
            assert(ids =~= old_ids.remove(j as int));
            assert forall|a: int, b: int| 0 <= a < ids.len() && 0 <= b < ids.len() && a != b implies ids[a] != ids[b] by {
                assert(ids[a] == if a < j { old_ids[a] } else { old_ids[a + 1] });
                assert(ids[b] == if b < j { old_ids[b] } else { old_ids[b + 1] });
            }
            lemma_index_in_unique(old_ids, j as int);
            if !was_active {
                if m0.active_tab is Some {
                    let t = m0.active_tab.unwrap();
                    assert(t != tab_id@);
                    let q = choose|q: int| 0 <= q < old_ids.len() && old_ids[q] == t;
                    assert(q != j);
                    if q < j {
                        assert(ids[q] == t);
                    } else {
                        assert(ids[q - 1] == t);
                    }
                }
            } else if ids.len() > 0 {
                assert(ids[0] == self@.tabs[0].id);
            }
            assert forall|k: int| 0 <= k < self@.tabs.len() implies session_ids(
                self@.sessions,
            ).contains(#[trigger] self@.tabs[k].session_id) && self@.tabs[k].layout.wf() by {
                let src = if k < j { k } else { k + 1 };
                assert(self@.tabs[k] == m0.tabs[src]);
                let x = self@.tabs[k].session_id;
                assert(session_ids(m0.sessions).contains(x));
                let q = choose|q: int|
                    0 <= q < session_ids(m0.sessions).len() && session_ids(m0.sessions)[q] == x;
                assert(session_ids(self@.sessions)[q] == x);
            }
        }
        Some(SessionEvent::TabClosed { tab_id: tab.id })
    }

    /// The handle of a session.
    pub fn get(&self, session_id: &SessionId) -> (h: Option<&SessionHandle>)
        ensures
            match self@.session_index(session_id@) {
                Some(i) => h matches Some(x) && x@ == self@.sessions[i as int],
                None => h is None,
            },
    {
        match self.session_position(session_id) {
            Some(i) => Some(&self.sessions[i]),
            None => None,
        }
    }

    /// A tab by id.
    pub fn tab(&self, tab_id: &TabId) -> (t: Option<&ManagedTab>)
        ensures
            match self@.tab_index(tab_id@) {
                Some(i) => t matches Some(x) && x@ == self@.tabs[i as int],
                None => t is None,
            },
    {
        match self.tab_position(tab_id) {
            Some(i) => Some(&self.tabs[i]),
            None => None,
        }
    }

    /// A tab by id, for changes to its layout.
    pub fn tab_mut(&mut self, tab_id: &TabId) -> (t: Option<&mut ManagedTab>)
        ensures
            match old(self)@.tab_index(tab_id@) {
                Some(i) => t matches Some(x) && x@ == old(self)@.tabs[i as int],
                None => t is None && final(self)@ == old(self)@,
            },
    {
        match self.tab_position(tab_id) {
            Some(i) => Some(&mut self.tabs[i]),
            None => None,
        }
    }

    /// The active tab.
    pub fn active_tab(&self) -> (t: Option<&TabId>)
        ensures
            match t {
                Some(x) => self@.active_tab == Some(x@),
                None => self@.active_tab is None,
            },
    {
        match &self.active_tab {
            Some(t) => Some(t),
            None => None,
        }
    }

    /// Updates a registered session's state and returns the `StateChanged`
    /// event; `None` for an unknown session.
    pub fn set_state(&mut self, session_id: &SessionId, state: SessionState) -> (e: Option<SessionEvent>)
        requires
            old(self).wf(),
        ensures
            final(self).wf(),
            final(self)@ == spec_set_state(old(self)@, session_id@, state),
            e is Some == old(self)@.session_index(session_id@) is Some,
            e matches Some(ev) ==> ev@ == (SessionEventView::StateChanged {
                session_id: session_id@,
                state,
            }),
    {
        let ghost m0 = self@;
        match self.session_position(session_id) {
            Some(i) => {
                let mut h = self.sessions[i].clone();
                h.set_state(state);
                let ghost hv = h@;
                self.sessions.set(i, h);
                proof {
                    assert(self@.sessions =~= m0.sessions.update(i as int, hv));
                    lemma_ids_update_session(m0.sessions, i as int, hv);
                }
                Some(SessionEvent::StateChanged { session_id: session_id.clone(), state })
            },
            None => None,
        }
    }

    /// Number of registered sessions.
    pub fn len(&self) -> (n: usize)
        ensures
            n == self@.sessions.len(),
    {
        self.sessions.len()
    }

    /// Whether no session is registered.
    pub fn is_empty(&self) -> (b: bool)
        ensures
            b == (self@.sessions.len() == 0),
    {
        self.sessions.len() == 0
    }

    /// Number of open tabs.
    pub fn tab_len(&self) -> (n: usize)
        ensures
            n == self@.tabs.len(),
    {
        self.tabs.len()
    }
}

impl Default for SessionManager {
    fn default() -> (m: SessionManager)
        ensures
            m.wf(),
            m@.sessions.len() == 0,
            m@.tabs.len() == 0,
            m@.active_tab.is_none(),
    {
        SessionManager::new()
    }
}

/// Opening a new tab and closing it again leaves the tab list as it was and
/// the session disconnected.
/// Closing an open tab removes exactly that tab. The active tab stays as it
/// was when another tab is closed; when the active tab itself is closed, a
/// remaining tab becomes active, or none when no tab is left.
pub proof fn law_close_tab_keeps_other_active(m: ManagerView, tab: Seq<char>)
    requires
        m.wf(),
        m.tab_index(tab) is Some,
    ensures
        ({
            let c = spec_close_tab(m, tab);
            &&& m.active_tab != Some(tab) ==> c.active_tab == m.active_tab
            &&& m.active_tab == Some(tab) ==> (c.active_tab is None <==> c.tabs.len() == 0)
            &&& c.active_tab matches Some(a) ==> tab_ids(c.tabs).contains(a)
            &&& !tab_ids(c.tabs).contains(tab)
            &&& c.tabs.len() + 1 == m.tabs.len()
            &&& m.session_index(m.tabs[m.tab_index(tab).unwrap() as int].session_id) matches Some(i)
                ==> c.sessions[i as int].state == SessionState::Disconnected
                && c.sessions[i as int].active_tab is None
            &&& forall|t: Seq<char>| t != tab ==> (tab_ids(c.tabs).contains(t) <==> tab_ids(
                m.tabs,
            ).contains(t))
        }),
{
    let ids = tab_ids(m.tabs);
    lemma_index_in(ids, tab);
    let j = m.tab_index(tab).unwrap() as int;
    lemma_index_in(session_ids(m.sessions), m.tabs[j].session_id);
    let c = spec_close_tab(m, tab);
    let cids = tab_ids(c.tabs);
    assert(cids =~= ids.remove(j));
    assert(ids[j] == tab);
    assert forall|t: Seq<char>| t != tab implies (cids.contains(t) <==> ids.contains(t)) by {
        if cids.contains(t) {
            let q = choose|q: int| 0 <= q < cids.len() && cids[q] == t;
            if q < j {
                assert(ids[q] == t);
            } else {
                assert(ids[q + 1] == t);
            }
        }
        if ids.contains(t) {
            let q = choose|q: int| 0 <= q < ids.len() && ids[q] == t;
            assert(q != j);
            if q < j {
                assert(cids[q] == t);
            } else {
                assert(cids[q - 1] == t);
            }
        }
    }
    if cids.contains(tab) {
        let q = choose|q: int| 0 <= q < cids.len() && cids[q] == tab;
        if q < j {
            assert(ids[q] == tab);
        } else {
            assert(ids[q + 1] == tab);
        }
    }
    if m.active_tab == Some(tab) {
        if c.tabs.len() > 0 {
            assert(cids[0] == c.tabs[0].id);
        }
    } else if m.active_tab is Some {
        assert(ids.contains(m.active_tab.unwrap()));
    }
}

pub proof fn law_open_then_close_tab(m: ManagerView, tab: Seq<char>, session: Seq<char>)
    requires
        m.wf(),
        !tab_ids(m.tabs).contains(tab),
    ensures
        ({
            let opened = spec_open_tab(m, tab, session);
            let closed = spec_close_tab(opened, tab);
            &&& opened.tab_index(tab) is Some
            &&& closed.tabs == m.tabs
            &&& closed.session_index(session) matches Some(i) && closed.sessions[i as int].state
                == SessionState::Disconnected && closed.sessions[i as int].active_tab is None
        }),
{
    let m1 = spec_create_session(m, session);
    let opened = spec_open_tab(m, tab, session);
    lemma_index_in(session_ids(m.sessions), session);
    if !session_ids(m.sessions).contains(session) {
        lemma_ids_push_session(m.sessions, m1.sessions.last());
        assert(session_ids(m1.sessions)[m.sessions.len() as int] == session);
    }
    lemma_index_in(session_ids(m1.sessions), session);
    let i = m1.session_index(session).unwrap() as int;
    lemma_ids_update_session(
        m1.sessions,
        i,
        SessionHandleView { active_tab: Some(tab), ..m1.sessions[i] },
    );
    assert(tab_ids(opened.tabs) =~= tab_ids(m.tabs).push(tab));
    lemma_index_in(tab_ids(opened.tabs), tab);
    assert(tab_ids(opened.tabs)[m.tabs.len() as int] == tab);
    let j = opened.tab_index(tab).unwrap() as int;
    if j < m.tabs.len() {
        assert(tab_ids(m.tabs)[j] == tab);
    }
    assert(opened.tabs.remove(j) =~= m.tabs);
    assert(opened.tabs[j].session_id == session);
    assert(session_ids(opened.sessions)[i] == session);
    lemma_index_in(session_ids(opened.sessions), session);
    let closed = spec_close_tab(opened, tab);
    let k = opened.session_index(session).unwrap() as int;
    lemma_ids_update_session(
        opened.sessions,
        k,
        SessionHandleView {
            active_tab: None,
            state: SessionState::Disconnected,
            ..opened.sessions[k]
        },
    );
}


/// Opening a tab registers its session.
pub proof fn law_open_registers_session(m: ManagerView, tab: Seq<char>, session: Seq<char>)
    ensures
        spec_open_tab(m, tab, session).session_index(session) is Some,
{
    let m1 = spec_create_session(m, session);
    lemma_index_in(session_ids(m.sessions), session);
    if !session_ids(m.sessions).contains(session) {
        lemma_ids_push_session(m.sessions, m1.sessions.last());
        assert(session_ids(m1.sessions)[m.sessions.len() as int] == session);
    }
    lemma_index_in(session_ids(m1.sessions), session);
    let i = m1.session_index(session).unwrap() as int;
    lemma_ids_update_session(
        m1.sessions,
        i,
        SessionHandleView { active_tab: Some(tab), ..m1.sessions[i] },
    );
    let opened = spec_open_tab(m, tab, session);
    assert(session_ids(opened.sessions) == session_ids(m1.sessions));
}

/// Setting a state keeps every session registered where it was.
pub proof fn law_set_state_keeps_sessions(m: ManagerView, id: Seq<char>, state: SessionState, other: Seq<char>)
    ensures
        spec_set_state(m, id, state).session_index(other) == m.session_index(other),
{
    match m.session_index(id) {
        Some(i) => {
            lemma_index_in(session_ids(m.sessions), id);
            lemma_ids_update_session(m.sessions, i as int, SessionHandleView { state, ..m.sessions[i as int] });
        },
        None => {},
    }
}

/// Opening a tab makes it the active tab and the one its session shows; the
/// session is registered (idle when it is new, in its old state otherwise),
/// and the tab is appended with a fresh layout unless it was already open.
pub proof fn law_open_tab_activates(m: ManagerView, tab: Seq<char>, session: Seq<char>)
    ensures
        ({
            let o = spec_open_tab(m, tab, session);
            &&& o.active_tab == Some(tab)
            &&& o.session_index(session) matches Some(i) && o.sessions[i as int].id == session
                && o.sessions[i as int].active_tab == Some(tab)
                && (m.session_index(session) matches Some(k) ==> i == k && o.sessions[i as int].state
                    == m.sessions[k as int].state)
                && (m.session_index(session) is None ==> o.sessions[i as int].state == SessionState::Idle)
            &&& tab_ids(o.tabs).contains(tab)
            &&& !tab_ids(m.tabs).contains(tab) ==> o.tabs == m.tabs.push(
                TabView { id: tab, session_id: session, layout: initial_layout() },
            )
            &&& tab_ids(m.tabs).contains(tab) ==> o.tabs == m.tabs
        }),
{
    law_open_registers_session(m, tab, session);
    let m1 = spec_create_session(m, session);
    lemma_index_in(session_ids(m.sessions), session);
    lemma_index_in(session_ids(m1.sessions), session);
    if !session_ids(m.sessions).contains(session) {
        lemma_ids_push_session(m.sessions, m1.sessions.last());
        assert(session_ids(m1.sessions)[m.sessions.len() as int] == session);
        let i = m1.session_index(session).unwrap() as int;
        if i < m.sessions.len() {
            assert(session_ids(m1.sessions)[i] == session_ids(m.sessions)[i]);
        }
    }
    let o = spec_open_tab(m, tab, session);
    let i = m1.session_index(session).unwrap() as int;
    lemma_ids_update_session(m1.sessions, i, SessionHandleView { active_tab: Some(tab), ..m1.sessions[i] });
    assert(session_ids(o.sessions) == session_ids(m1.sessions));
    assert(session_ids(m1.sessions)[i] == session);
    if !tab_ids(m.tabs).contains(tab) {
        assert(tab_ids(o.tabs) =~= tab_ids(m.tabs).push(tab));
        assert(tab_ids(o.tabs)[m.tabs.len() as int] == tab);
    }
}

/// Setting the state of a registered session changes that session's state
/// and nothing else; for an unknown session nothing changes.
pub proof fn law_set_state_sets_only_that_session(m: ManagerView, id: Seq<char>, state: SessionState)
    ensures
        ({
            let r = spec_set_state(m, id, state);
            &&& m.session_index(id) is None ==> r == m
            &&& m.session_index(id) matches Some(i) ==> {
                &&& r.sessions.len() == m.sessions.len()
                &&& r.sessions[i as int].state == state
                &&& r.sessions[i as int].id == id
                &&& r.sessions[i as int].active_tab == m.sessions[i as int].active_tab
                &&& forall|k: int| 0 <= k < m.sessions.len() && k != i ==> r.sessions[k] == m.sessions[k]
                &&& r.tabs == m.tabs
                &&& r.active_tab == m.active_tab
            }
        }),
{
    lemma_index_in(session_ids(m.sessions), id);
}

} // verus!
