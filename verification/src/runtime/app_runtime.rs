//! The runtime behind the UI: saved configuration, the core dispatcher, the
//! session runtimes and the texts the UI shows.
use vstd::prelude::*;

use crate::config::quick_connect::{
    opt_string_view, parse_quick_connect, quick_connect_message, spec_parse_quick_connect,
    QuickConnectTargetView,
};
use crate::config::schema::{find_in_document, find_in_list, ConfigDocument, SessionProfile};
use crate::config::store::LoadOutcome;
use crate::runtime::error::{AppError, AppResult};
use crate::runtime::session_runtime::{
    after_drain, blank_terminal, drained_from, feed_chunks, leading_chunks, sidebar_text, state_name, target_name, terminal_of, visible_text_of,
    SessionRuntime, SessionSource,
};
use crate::ssh::auth::{auth_username, AuthMethod};
use crate::session::command_dispatcher::{
    unknown_session_message, CommandDispatchError, CommandDispatcher, CoreCommandDispatcher, SessionCommand,
};
use crate::session::session_event::{SessionEvent, SessionEventView, SessionId};
use crate::session::session_handle::{SessionHandleView, SessionState};
use crate::ssh::channel::ShellSession;
use crate::ssh::client::{
    any_open_outcome, backend_label, config_problem, lemma_accepting_shell_polls, polls_cleanly, AnyShell,
    SshConnectionConfig, TransportBackend,
};
use crate::ssh::pty::PtySize;
use crate::ssh::error::{ssh_kind_name, SshError, SshErrorKind};
use crate::ssh::fake::{chunk_views, fake_banner, fake_established, fresh_fake_shell};
use crate::ssh::real_transport::{
    fresh_real_shell, lemma_fresh_real_shell_greeting, lemma_fresh_real_shell_not_connected,
    staged_greeting,
};
use crate::session::command_dispatcher::event_views;
use crate::session::session_manager::{
    ManagerView, law_open_registers_session, law_set_state_keeps_sessions, spec_open_tab, spec_set_state,
};
use crate::terminal::grid::GridView;
use crate::terminal::parser::{initial_parser, run, ParserView};
use vstd::utf8::encode_utf8;
use crate::text::{
    bytes_of, chars_of, decimal, index_in, lemma_decimal_injective, lemma_decimal_len, lemma_index_in,
    lemma_seq_lt_irreflexive, lemma_seq_lt_total, lemma_seq_lt_transitive, push_decimal, push_str,
    seq_lt, str_eq, text_lt, trim_bounds, trim_ws, lossy_text,
};

verus! {

/// What the UI shows.
#[derive(Debug, Clone, PartialEq, Eq)]
pub struct AppProjection {
    pub config_dir_text: String,
    pub active_session_text: String,
    pub session_summary_text: String,
    pub tab_text: String,
    pub terminal_title_text: String,
    pub terminal_body_text: String,
    pub status_text: String,
    pub transport_backend_text: String,
    pub sftp_visible: bool,
    pub tunnels_visible: bool,
    pub commands_visible: bool,
}

pub open spec fn runtime_ids(s: Seq<SessionRuntime>) -> Seq<Seq<char>> {
    s.map_values(|r: SessionRuntime| r.spec_session_id())
}

/// Runtimes in strictly increasing id order.
pub open spec fn sorted_runtimes(s: Seq<SessionRuntime>) -> bool {
    forall|i: int, j: int|
        0 <= i < j < s.len() ==> seq_lt(#[trigger] s[i].spec_session_id(), #[trigger] s[j].spec_session_id())
}

/// An index of the runtime with id `key`.
pub open spec fn index_of_runtime(s: Seq<SessionRuntime>, key: Seq<char>) -> int {
    choose|i: int| 0 <= i < s.len() && s[i].spec_session_id() == key
}

/// The runtimes keyed by session id.
pub open spec fn runtime_map(s: Seq<SessionRuntime>) -> Map<Seq<char>, SessionRuntime> {
    Map::new(|k: Seq<char>| runtime_ids(s).contains(k), |k: Seq<char>| s[index_of_runtime(s, k)])
}

proof fn lemma_runtime_unique(s: Seq<SessionRuntime>, i: int, j: int)
    requires
        sorted_runtimes(s),
        0 <= i < s.len(),
        0 <= j < s.len(),
        i != j,
    ensures
        s[i].spec_session_id() != s[j].spec_session_id(),
{
    lemma_seq_lt_irreflexive(s[i].spec_session_id());
    if i < j {
        assert(seq_lt(s[i].spec_session_id(), s[j].spec_session_id()));
    } else {
        assert(seq_lt(s[j].spec_session_id(), s[i].spec_session_id()));
    }
}

proof fn lemma_runtime_at(s: Seq<SessionRuntime>, i: int)
    requires
        sorted_runtimes(s),
        0 <= i < s.len(),
    ensures
        runtime_map(s).contains_key(s[i].spec_session_id()),
        runtime_map(s)[s[i].spec_session_id()] == s[i],
{
    let k = s[i].spec_session_id();
    assert(runtime_ids(s)[i] == k);
    assert(runtime_ids(s).contains(k));
    let j = index_of_runtime(s, k);
    assert(0 <= j < s.len() && s[j].spec_session_id() == k);
    if j != i {
        lemma_runtime_unique(s, i, j);
    }
}

/// The text the UI shows for the saved sessions when none is active.
pub open spec fn saved_sessions_text(n: nat) -> Seq<char> {
    if n == 0 {
        "Welcome"@
    } else {
        "Saved Sessions ("@ + decimal(n) + ")"@
    }
}

/// A runtime's name and state, as the header and tab show them.
pub open spec fn name_and_state(r: SessionRuntime) -> Seq<char> {
    r.display_name@ + "  "@ + state_name(r.state)
}

/// The terminal body for a runtime: its visible text, or a note when it shows
/// nothing but whitespace.
pub open spec fn body_text(r: SessionRuntime) -> Seq<char> {
    if trim_ws(visible_text_of(r.terminal_grid@)).len() == 0 {
        "Terminal runtime is initialized but no output is available yet."@
    } else {
        visible_text_of(r.terminal_grid@)
    }
}

/// Lines joined with newlines.
pub open spec fn joined_lines(lines: Seq<Seq<char>>) -> Seq<char> {
    crate::runtime::session_runtime::join_lines(lines)
}

/// The sidebar: up to six runtimes in id order, and a count of the rest.
pub open spec fn summary_text(s: Seq<SessionRuntime>) -> Seq<char> {
    if s.len() == 0 {
        "No runtime sessions yet."@
    } else {
        let shown = if s.len() > 6 {
            6
        } else {
            s.len() as int
        };
        let lines = Seq::new(shown as nat, |i: int| sidebar_text(s[i]));
        if s.len() > 6 {
            joined_lines(lines.push("... and "@ + decimal((s.len() - 6) as nat) + " more"@))
        } else {
            joined_lines(lines)
        }
    }
}

/// Effect of one core event on a runtime's state and terminal, for the
/// runtime of session `id`.
pub open spec fn apply_event(
    state: SessionState,
    term: (ParserView, GridView),
    e: SessionEventView,
    id: Seq<char>,
) -> (SessionState, (ParserView, GridView)) {
    match e {
        SessionEventView::TabOpened { session_id, .. } => if session_id == id {
            (state, run(term.0, term.1, "Core tab opened for session."@ + "\n"@))
        } else {
            (state, term)
        },
        SessionEventView::StateChanged { session_id, state: s } => if session_id == id {
            (s, run(term.0, term.1, "Core state updated: "@ + state_name(s) + "\n"@))
        } else {
            (state, term)
        },
        SessionEventView::Connecting { session_id } => if session_id == id {
            (
                SessionState::Connecting,
                run(term.0, term.1, "Connection entering connecting state."@ + "\n"@),
            )
        } else {
            (state, term)
        },
        SessionEventView::Connected { session_id } => if session_id == id {
            (SessionState::Connected, run(term.0, term.1, "Connection established."@ + "\n"@))
        } else {
            (state, term)
        },
        SessionEventView::Disconnected { session_id, reason } => if session_id == id {
            (SessionState::Disconnected, run(term.0, term.1, "Disconnected: "@ + reason + "\n"@))
        } else {
            (state, term)
        },
        SessionEventView::Error { session_id, error } => if session_id == id {
            (SessionState::Failed, run(term.0, term.1, "Session error: "@ + error + "\n"@))
        } else {
            (state, term)
        },
        SessionEventView::TerminalOutput { session_id, bytes } => if session_id == id {
            (state, run(term.0, term.1, lossy_text(bytes)))
        } else {
            (state, term)
        },
        _ => (state, term),
    }
}

/// Events applied in order.
pub open spec fn apply_events(
    state: SessionState,
    term: (ParserView, GridView),
    events: Seq<SessionEventView>,
    id: Seq<char>,
) -> (SessionState, (ParserView, GridView))
    decreases events.len(),
{
    if events.len() == 0 {
        (state, term)
    } else {
        let (s1, t1) = apply_events(state, term, events.drop_last(), id);
        apply_event(s1, t1, events.last(), id)
    }
}


proof fn lemma_runtime_insert(s: Seq<SessionRuntime>, k: int, r: SessionRuntime)
    requires
        sorted_runtimes(s),
        0 <= k <= s.len(),
        forall|j: int| 0 <= j < k ==> seq_lt(#[trigger] s[j].spec_session_id(), r.spec_session_id()),
        forall|j: int| k <= j < s.len() ==> seq_lt(r.spec_session_id(), #[trigger] s[j].spec_session_id()),
    ensures
        sorted_runtimes(s.insert(k, r)),
        runtime_map(s.insert(k, r)) == runtime_map(s).insert(r.spec_session_id(), r),
{
    let t = s.insert(k, r);
    let key = r.spec_session_id();
    assert forall|i: int, j: int| 0 <= i < j < t.len() implies seq_lt(
        #[trigger] t[i].spec_session_id(),
        #[trigger] t[j].spec_session_id(),
    ) by {
        if j < k {
            assert(t[i] == s[i] && t[j] == s[j]);
        } else if j == k {
            assert(t[i] == s[i]);
        } else if i < k {
            assert(t[i] == s[i] && t[j] == s[j - 1]);
            lemma_seq_lt_transitive(s[i].spec_session_id(), key, s[j - 1].spec_session_id());
        } else if i == k {
            assert(t[j] == s[j - 1]);
        } else {
            assert(t[i] == s[i - 1] && t[j] == s[j - 1]);
        }
    }
    let m = runtime_map(s).insert(key, r);
    assert forall|q: Seq<char>| #[trigger] runtime_map(t).contains_key(q) == m.contains_key(q) by {
        if runtime_ids(t).contains(q) {
            let i = choose|i: int| 0 <= i < runtime_ids(t).len() && runtime_ids(t)[i] == q;
            if i < k {
                assert(runtime_ids(s)[i] == q);
            } else if i > k {
                assert(runtime_ids(s)[i - 1] == q);
            }
        }
        if runtime_ids(s).contains(q) {
            let i = choose|i: int| 0 <= i < runtime_ids(s).len() && runtime_ids(s)[i] == q;
            if i < k {
                assert(runtime_ids(t)[i] == q);
            } else {
                assert(runtime_ids(t)[i + 1] == q);
            }
        }
        if q == key {
            assert(runtime_ids(t)[k] == q);
        }
    }
    assert forall|q: Seq<char>| #[trigger] runtime_map(t).contains_key(q) implies runtime_map(t)[q]
        == m[q] by {
        let i = choose|i: int| 0 <= i < runtime_ids(t).len() && runtime_ids(t)[i] == q;
        lemma_runtime_at(t, i);
        if i < k {
            assert(t[i] == s[i]);
            lemma_runtime_at(s, i);
            lemma_seq_lt_irreflexive(q);
        } else if i > k {
            assert(t[i] == s[i - 1]);
            lemma_runtime_at(s, i - 1);
            lemma_seq_lt_irreflexive(q);
        }
    }
    assert(runtime_map(t) =~= m);
}

proof fn lemma_runtime_update(s: Seq<SessionRuntime>, k: int, r: SessionRuntime)
    requires
        sorted_runtimes(s),
        0 <= k < s.len(),
        s[k].spec_session_id() == r.spec_session_id(),
    ensures
        sorted_runtimes(s.update(k, r)),
        runtime_map(s.update(k, r)) == runtime_map(s).insert(r.spec_session_id(), r),
{
    let t = s.update(k, r);
    assert forall|i: int, j: int| 0 <= i < j < t.len() implies seq_lt(
        #[trigger] t[i].spec_session_id(),
        #[trigger] t[j].spec_session_id(),
    ) by {
        assert(t[i].spec_session_id() == s[i].spec_session_id());
        assert(t[j].spec_session_id() == s[j].spec_session_id());
    }
    let m = runtime_map(s).insert(r.spec_session_id(), r);
    assert forall|q: Seq<char>| #[trigger] runtime_map(t).contains_key(q) == m.contains_key(q) by {
        if runtime_ids(t).contains(q) {
            let i = choose|i: int| 0 <= i < runtime_ids(t).len() && runtime_ids(t)[i] == q;
            assert(runtime_ids(s)[i] == q);
        }
        if runtime_ids(s).contains(q) {
            let i = choose|i: int| 0 <= i < runtime_ids(s).len() && runtime_ids(s)[i] == q;
            assert(runtime_ids(t)[i] == q);
        }
        if q == r.spec_session_id() {
            assert(runtime_ids(t)[k] == q);
        }
    }
    assert forall|q: Seq<char>| #[trigger] runtime_map(t).contains_key(q) implies runtime_map(t)[q]
        == m[q] by {
        let i = choose|i: int| 0 <= i < runtime_ids(t).len() && runtime_ids(t)[i] == q;
        lemma_runtime_at(t, i);
        if i != k {
            lemma_runtime_at(s, i);
            lemma_runtime_unique(s, i, k);
        }
    }
    assert(runtime_map(t) =~= m);
}

/// Position of the runtime with id `key`.
fn runtime_position(v: &Vec<SessionRuntime>, key: &str) -> (r: Option<usize>)
    ensures
        match r {
            Some(i) => i < v@.len() && v@[i as int].spec_session_id() == key@,
            None => !runtime_ids(v@).contains(key@),
        },
{
    let mut i: usize = 0;
    while i < v.len()
        invariant
            i <= v@.len(),
            forall|j: int| 0 <= j < i ==> v@[j].spec_session_id() != key@,
        decreases v.len() - i,
    {
        if str_eq(v[i].session_id().as_str(), key) {
            return Some(i);
        }
        i = i + 1;
    }
    assert forall|j: int| 0 <= j < v@.len() implies runtime_ids(v@)[j] != key@ by {}
    None
}

/// Adds a runtime, replacing one with the same id, keeping id order.
fn insert_runtime(v: &mut Vec<SessionRuntime>, r: SessionRuntime)
    requires
        sorted_runtimes(old(v)@),
        forall|i: int| 0 <= i < old(v)@.len() ==> #[trigger] old(v)@[i].wf(),
        r.wf(),
    ensures
        sorted_runtimes(final(v)@),
        forall|i: int| 0 <= i < final(v)@.len() ==> #[trigger] final(v)@[i].wf(),
        runtime_map(final(v)@) == runtime_map(old(v)@).insert(r.spec_session_id(), r),
{
    let ghost s = v@;
    let ghost rv = r;
    let key = chars_of(r.session_id().as_str());
    let mut k: usize = 0;
    while k < v.len()
        invariant
            k <= v@.len(),
            v@ == s,
            sorted_runtimes(s),
            key@ == rv.spec_session_id(),
            forall|j: int| 0 <= j < k ==> seq_lt(#[trigger] s[j].spec_session_id(), key@),
        ensures
            k <= v@.len(),
            v@ == s,
            forall|j: int| 0 <= j < k ==> seq_lt(#[trigger] s[j].spec_session_id(), key@),
            k < v@.len() ==> !seq_lt(s[k as int].spec_session_id(), key@),
        decreases v.len() - k,
    {
        let p = chars_of(v[k].session_id().as_str());
        if !text_lt(&p, &key) {
            break;
        }
        k = k + 1;
    }
    if k < v.len() && str_eq(v[k].session_id().as_str(), r.session_id().as_str()) {
        proof {
            lemma_runtime_update(s, k as int, rv);
        }
        v.set(k, r);
        assert(v@ == s.update(k as int, rv));
    } else {
        proof {
            assert forall|j: int| k <= j < s.len() implies seq_lt(rv.spec_session_id(), #[trigger] s[j].spec_session_id()) by {
                lemma_seq_lt_total(rv.spec_session_id(), s[k as int].spec_session_id());
                if j > k {
                    assert(seq_lt(s[k as int].spec_session_id(), s[j].spec_session_id()));
                    lemma_seq_lt_transitive(rv.spec_session_id(), s[k as int].spec_session_id(), s[j].spec_session_id());
                }
            }
            lemma_runtime_insert(s, k as int, rv);
        }
        v.insert(k, r);
        assert(v@ == s.insert(k as int, rv));
    }
}


/// The runtime behind the UI.
#[derive(Debug)]
pub struct AppRuntime {
    config_dir: String,
    config_document: ConfigDocument,
    dispatcher: CoreCommandDispatcher,
    sessions: Vec<SessionRuntime>,
    active_session_id: Option<String>,
    sftp_visible: bool,
    tunnels_visible: bool,
    commands_visible: bool,
    status_text: String,
    transport_backend: TransportBackend,
    recovered_from_backup: Option<String>,
    next_runtime_ordinal: usize,
}

/// A runtime freshly loaded from saved profile `p` with tab ordinal `ordinal`.
pub open spec fn loaded_from(r: SessionRuntime, p: SessionProfile, ordinal: nat) -> bool {
    &&& r.spec_session_id() == p.id@
    &&& r.spec_tab_id() == "tab-saved-"@ + decimal(ordinal)
    &&& r.display_name == p.name
    &&& r.state == SessionState::Idle
    &&& r.shell_session is None
    &&& r.ssh_config.host@ == p.host@
    &&& r.ssh_config.port == p.port
    &&& r.source == (SessionSource::SavedSession { profile_id: p.id })
    &&& r.ssh_config.auth matches AuthMethod::Agent { username } && username@ == match opt_string_view(
        p.username,
    ) {
        Some(u) => u,
        None => "user"@,
    }
    &&& terminal_of(r) == run(
        initial_parser(),
        blank_terminal(),
        "Saved session loaded into runtime inventory."@ + "\n"@,
    )
}

/// The status shown after start-up.
pub open spec fn startup_text(dir: Seq<char>, saved: nat, backup: Option<Seq<char>>) -> Seq<char> {
    match backup {
        Some(path) => "Recovered configuration from backup. Saved sessions: "@ + decimal(saved)
            + ". Backup: "@ + path,
        None => "Runtime initialized. Config: "@ + dir + ". Saved sessions discovered: "@ + decimal(
            saved,
        ) + "."@,
    }
}

pub open spec fn opt_text(s: Option<String>) -> Option<Seq<char>> {
    match s {
        Some(t) => Some(t@),
        None => None,
    }
}

pub open spec fn backend_status(b: TransportBackend) -> Seq<char> {
    match b {
        TransportBackend::Fake => "Transport backend set to `fake`. Quick Connect will use the deterministic shell adapter."@,
        TransportBackend::Real => "Transport backend set to `real`. Quick Connect will enter the staged real-transport scaffold until TCP/SSH wiring exists."@,
    }
}

impl AppRuntime {
    /// The runtime invariant: runtimes in id order, each well formed.
    pub closed spec fn wf(&self) -> bool {
        &&& sorted_runtimes(self.sessions@)
        &&& forall|i: int| 0 <= i < self.sessions@.len() ==> #[trigger] self.sessions@[i].wf()
    }

    pub closed spec fn spec_config_dir(&self) -> Seq<char> {
        self.config_dir@
    }

    pub closed spec fn spec_document(&self) -> ConfigDocument {
        self.config_document
    }

    /// The runtimes in id order.
    pub closed spec fn spec_runtimes(&self) -> Seq<SessionRuntime> {
        self.sessions@
    }

    /// The runtimes by session id.
    pub open spec fn spec_sessions(&self) -> Map<Seq<char>, SessionRuntime> {
        runtime_map(self.spec_runtimes())
    }

    pub closed spec fn spec_active(&self) -> Option<Seq<char>> {
        opt_text(self.active_session_id)
    }

    pub closed spec fn spec_status(&self) -> Seq<char> {
        self.status_text@
    }

    pub closed spec fn spec_backend(&self) -> TransportBackend {
        self.transport_backend
    }

    pub closed spec fn spec_panels(&self) -> (bool, bool, bool) {
        (self.sftp_visible, self.tunnels_visible, self.commands_visible)
    }

    pub closed spec fn spec_ordinal(&self) -> nat {
        self.next_runtime_ordinal as nat
    }

    pub closed spec fn spec_registry(&self) -> crate::session::session_manager::ManagerView {
        self.dispatcher.registry()
    }

    pub closed spec fn spec_backup(&self) -> Option<Seq<char>> {
        opt_text(self.recovered_from_backup)
    }

    /// The active runtime, if the active id names one.
    pub open spec fn active_runtime(&self) -> Option<SessionRuntime> {
        match self.spec_active() {
            Some(k) => if self.spec_sessions().contains_key(k) {
                Some(self.spec_sessions()[k])
            } else {
                None
            },
            None => None,
        }
    }

    /// What `projection` shows.
    pub open spec fn shows(&self, p: AppProjection) -> bool {
        &&& p.config_dir_text@ == self.spec_config_dir()
        &&& p.active_session_text@ == match self.active_runtime() {
            Some(r) => name_and_state(r),
            None => saved_sessions_text(self.spec_document().sessions@.len()),
        }
        &&& p.session_summary_text@ == summary_text(self.spec_runtimes())
        &&& p.tab_text@ == match self.active_runtime() {
            Some(r) => name_and_state(r),
            None => "Welcome  idle"@,
        }
        &&& p.terminal_title_text@ == match self.active_runtime() {
            Some(r) => "Terminal: "@ + r.display_name@,
            None => "YShell terminal"@,
        }
        &&& p.terminal_body_text@ == match self.active_runtime() {
            Some(r) => body_text(r),
            None => "Runtime is ready. Open a Quick Connect target or create a draft session."@,
        }
        &&& p.status_text@ == self.spec_status()
        &&& p.transport_backend_text@ == backend_label(self.spec_backend())
        &&& p.sftp_visible == self.spec_panels().0
        &&& p.tunnels_visible == self.spec_panels().1
        &&& p.commands_visible == self.spec_panels().2
    }

    /// The next ordinal a runtime will get.
    pub fn next_ordinal(&self) -> (n: usize)
        ensures
            n == self.spec_ordinal(),
    {
        self.next_runtime_ordinal
    }

    /// The saved configuration.
    pub fn config_document(&self) -> (d: &ConfigDocument)
        ensures
            *d == self.spec_document(),
    {
        &self.config_document
    }

    fn startup_status(&self) -> (s: String)
        ensures
            s@ == startup_text(
                self.config_dir@,
                self.config_document.sessions@.len(),
                opt_text(self.recovered_from_backup),
            ),
    {
        let saved = self.config_document.sessions.len();
        let mut s = String::new();
        match &self.recovered_from_backup {
            Some(path) => {
                push_str(&mut s, "Recovered configuration from backup. Saved sessions: ");
                push_decimal(&mut s, saved as u64);
                push_str(&mut s, ". Backup: ");
                push_str(&mut s, path.as_str());
            },
            None => {
                push_str(&mut s, "Runtime initialized. Config: ");
                push_str(&mut s, self.config_dir.as_str());
                push_str(&mut s, ". Saved sessions discovered: ");
                push_decimal(&mut s, saved as u64);
                push_str(&mut s, ".");
            },
        }
        proof {
            assert(Seq::<char>::empty() + "Recovered configuration from backup. Saved sessions: "@
                =~= "Recovered configuration from backup. Saved sessions: "@);
            assert(Seq::<char>::empty() + "Runtime initialized. Config: "@ =~= "Runtime initialized. Config: "@);
        }
        s
    }

    /// A runtime over a loaded configuration: one idle runtime per saved
    /// session (the last of equal ids wins), the fake transport, every panel
    /// shown, and a start-up status.
    pub fn new(config_dir: &str, outcome: LoadOutcome) -> (rt: AppRuntime)
        requires
            outcome.document.sessions@.len() < usize::MAX,
        ensures
            rt.wf(),
            rt.spec_config_dir() == config_dir@,
            rt.spec_document() == outcome.document,
            rt.spec_active() is None,
            rt.spec_backend() == TransportBackend::Fake,
            rt.spec_panels() == (true, true, true),
            rt.spec_backup() == opt_text(outcome.recovered_from_backup),
            rt.spec_registry().sessions.len() == 0,
            rt.spec_registry().tabs.len() == 0,
            rt.spec_status() == startup_text(
                config_dir@,
                outcome.document.sessions@.len(),
                opt_text(outcome.recovered_from_backup),
            ),
            rt.spec_ordinal() == outcome.document.sessions@.len() + 1,
            rt.spec_sessions().dom() == outcome.document.sessions@.map_values(
                |p: SessionProfile| p.id@,
            ).to_set(),
            forall|k: Seq<char>| #[trigger] rt.spec_sessions().contains_key(k) ==> exists|j: int|
                0 <= j < outcome.document.sessions@.len() && outcome.document.sessions@[j].id@ == k
                    && loaded_from(rt.spec_sessions()[k], outcome.document.sessions@[j], (j + 1) as nat)
                    && forall|j2: int|
                    j < j2 < outcome.document.sessions@.len() ==> #[trigger] outcome.document.sessions@[j2].id@ != k,
    {
        let LoadOutcome { document, recovered_from_backup } = outcome;
        let mut runtime = AppRuntime {
            config_dir: config_dir.to_owned(),
            config_document: document,
            dispatcher: CoreCommandDispatcher::new(),
            sessions: Vec::new(),
            active_session_id: None,
            sftp_visible: true,
            tunnels_visible: true,
            commands_visible: true,
            status_text: String::new(),
            transport_backend: TransportBackend::Fake,
            recovered_from_backup,
            next_runtime_ordinal: 1,
        };
        runtime.status_text = runtime.startup_status();
        runtime.hydrate_saved_sessions();
        runtime
    }

    /// Loads one runtime per saved session.
    fn hydrate_saved_sessions(&mut self)
        requires
            old(self).sessions@.len() == 0,
            old(self).next_runtime_ordinal == 1,
            old(self).config_document.sessions@.len() < usize::MAX,
        ensures
            final(self).wf(),
            final(self).config_dir == old(self).config_dir,
            final(self).config_document == old(self).config_document,
            final(self).active_session_id == old(self).active_session_id,
            final(self).transport_backend == old(self).transport_backend,
            final(self).status_text == old(self).status_text,
            final(self).recovered_from_backup == old(self).recovered_from_backup,
            final(self).sftp_visible == old(self).sftp_visible,
            final(self).tunnels_visible == old(self).tunnels_visible,
            final(self).commands_visible == old(self).commands_visible,
            final(self).dispatcher == old(self).dispatcher,
            final(self).next_runtime_ordinal == old(self).config_document.sessions@.len() + 1,
            runtime_map(final(self).sessions@).dom() == old(self).config_document.sessions@.map_values(
                |p: SessionProfile| p.id@,
            ).to_set(),
            forall|k: Seq<char>| #[trigger] runtime_map(final(self).sessions@).contains_key(k) ==> exists|j: int|
                0 <= j < old(self).config_document.sessions@.len() && old(self).config_document.sessions@[j].id@ == k
                    && loaded_from(runtime_map(final(self).sessions@)[k], old(self).config_document.sessions@[j], (j + 1) as nat)
                    && forall|j2: int|
                    j < j2 < old(self).config_document.sessions@.len() ==> #[trigger] old(self).config_document.sessions@[j2].id@ != k,
    {
        let ghost profiles = self.config_document.sessions@;
        let n = self.config_document.sessions.len();
        let mut i: usize = 0;
        assert(runtime_map(self.sessions@) =~= Map::<Seq<char>, SessionRuntime>::empty()) by {
            assert(runtime_ids(self.sessions@) =~= Seq::<Seq<char>>::empty());
        }
        while i < n
            invariant
                i <= n,
                n == profiles.len(),
                n < usize::MAX,
                profiles == self.config_document.sessions@,
                self.config_dir == old(self).config_dir,
                self.config_document == old(self).config_document,
                self.active_session_id == old(self).active_session_id,
                self.transport_backend == old(self).transport_backend,
                self.status_text == old(self).status_text,
                self.recovered_from_backup == old(self).recovered_from_backup,
                self.sftp_visible == old(self).sftp_visible,
                self.tunnels_visible == old(self).tunnels_visible,
                self.commands_visible == old(self).commands_visible,
                self.dispatcher == old(self).dispatcher,
                self.next_runtime_ordinal == 1,
                sorted_runtimes(self.sessions@),
                forall|q: int| 0 <= q < self.sessions@.len() ==> #[trigger] self.sessions@[q].wf(),
                runtime_map(self.sessions@).dom() == profiles.take(i as int).map_values(
                    |p: SessionProfile| p.id@,
                ).to_set(),
                forall|k: Seq<char>| #[trigger] runtime_map(self.sessions@).contains_key(k) ==> exists|j: int|
                    0 <= j < i && profiles[j].id@ == k && loaded_from(runtime_map(self.sessions@)[k], profiles[j], (j + 1) as nat)
                        && forall|j2: int| j < j2 < i ==> #[trigger] profiles[j2].id@ != k,
            decreases n - i,
        {
            let r = SessionRuntime::from_profile(&self.config_document.sessions[i], i + 1);
            let ghost rv = r;
            let ghost before = runtime_map(self.sessions@);
            insert_runtime(&mut self.sessions, r);
            proof {
                let after = runtime_map(self.sessions@);
                let key = profiles[i as int].id@;
                assert(rv.spec_session_id() == key);
                let ids_i = profiles.take(i as int).map_values(|p: SessionProfile| p.id@);
                let ids_n = profiles.take(i + 1).map_values(|p: SessionProfile| p.id@);
                assert(ids_n =~= ids_i.push(key));
                assert(ids_n.to_set() =~= ids_i.to_set().insert(key)) by {
                    assert forall|x: Seq<char>| ids_n.to_set().contains(x) == ids_i.to_set().insert(key).contains(x) by {
                        if ids_n.contains(x) {
                            let q = choose|q: int| 0 <= q < ids_n.len() && ids_n[q] == x;
                            if q < i {
                                assert(ids_i[q] == x);
                            }
                        }
                        if ids_i.contains(x) {
                            let q = choose|q: int| 0 <= q < ids_i.len() && ids_i[q] == x;
                            assert(ids_n[q] == x);
                        }
                        if x == key {
                            assert(ids_n[i as int] == x);
                        }
                    }
                }
                assert forall|k: Seq<char>| #[trigger] after.contains_key(k) implies exists|j: int|
                    0 <= j < i + 1 && profiles[j].id@ == k && loaded_from(after[k], profiles[j], (j + 1) as nat)
                        && forall|j2: int| j < j2 < i + 1 ==> #[trigger] profiles[j2].id@ != k by {
                    if k == key {
                        assert(after[k] == rv);
                        assert(profiles[i as int].id@ == k);
                    } else {
                        assert(before.contains_key(k));
                        let j = choose|j: int|
                            0 <= j < i && profiles[j].id@ == k && loaded_from(before[k], profiles[j], (j + 1) as nat)
                                && forall|j2: int| j < j2 < i ==> #[trigger] profiles[j2].id@ != k;
                        assert(after[k] == before[k]);
                        assert forall|j2: int| j < j2 < i + 1 implies #[trigger] profiles[j2].id@ != k by {
                            if j2 == i {
                                assert(profiles[j2].id@ == key);
                            }
                        }
                    }
                }
            }
            i = i + 1;
        }
        assert(profiles.take(n as int) =~= profiles);
        self.next_runtime_ordinal = n + 1;
    }
}


/// Whether `s` is empty once surrounding whitespace is removed.
fn is_blank_text(s: &str) -> (b: bool)
    ensures
        b == (trim_ws(s@).len() == 0),
{
    let chars = chars_of(s);
    let (start, end) = trim_bounds(&chars);
    start == end
}

pub open spec fn panel_text(name: Seq<char>, shown: bool) -> Seq<char> {
    name + if shown {
        " panel shown"@
    } else {
        " panel hidden"@
    }
}

impl AppRuntime {
    /// Index of the active runtime.
    fn active_index(&self) -> (r: Option<usize>)
        requires
            self.wf(),
        ensures
            match r {
                Some(i) => i < self.sessions@.len() && self.active_runtime() == Some(self.sessions@[i as int]),
                None => self.active_runtime() is None,
            },
    {
        match &self.active_session_id {
            Some(id) => {
                let r = runtime_position(&self.sessions, id.as_str());
                proof {
                    match r {
                        Some(i) => {
                            lemma_runtime_at(self.sessions@, i as int);
                        },
                        None => {},
                    }
                }
                r
            },
            None => None,
        }
    }

    fn active_session_label(&self) -> (s: String)
        requires
            self.wf(),
        ensures
            s@ == match self.active_runtime() {
                Some(r) => name_and_state(r),
                None => saved_sessions_text(self.spec_document().sessions@.len()),
            },
    {
        match self.active_index() {
            Some(i) => {
                let mut s = String::new();
                push_str(&mut s, self.sessions[i].display_name.as_str());
                push_str(&mut s, "  ");
                push_str(&mut s, self.sessions[i].state_label());
                assert(Seq::<char>::empty() + self.sessions@[i as int].display_name@ =~= self.sessions@[i as int].display_name@);
                s
            },
            None => {
                let n = self.config_document.sessions.len();
                if n == 0 {
                    "Welcome".to_owned()
                } else {
                    let mut s = String::new();
                    push_str(&mut s, "Saved Sessions (");
                    push_decimal(&mut s, n as u64);
                    push_str(&mut s, ")");
                    assert(Seq::<char>::empty() + "Saved Sessions ("@ =~= "Saved Sessions ("@);
                    s
                }
            },
        }
    }

    fn tab_text(&self) -> (s: String)
        requires
            self.wf(),
        ensures
            s@ == match self.active_runtime() {
                Some(r) => name_and_state(r),
                None => "Welcome  idle"@,
            },
    {
        match self.active_index() {
            Some(i) => {
                let mut s = String::new();
                push_str(&mut s, self.sessions[i].display_name.as_str());
                push_str(&mut s, "  ");
                push_str(&mut s, self.sessions[i].state_label());
                assert(Seq::<char>::empty() + self.sessions@[i as int].display_name@ =~= self.sessions@[i as int].display_name@);
                s
            },
            None => "Welcome  idle".to_owned(),
        }
    }

    fn terminal_title_text(&self) -> (s: String)
        requires
            self.wf(),
        ensures
            s@ == match self.active_runtime() {
                Some(r) => "Terminal: "@ + r.display_name@,
                None => "YShell terminal"@,
            },
    {
        match self.active_index() {
            Some(i) => {
                let mut s = String::new();
                push_str(&mut s, "Terminal: ");
                push_str(&mut s, self.sessions[i].display_name.as_str());
                assert(Seq::<char>::empty() + "Terminal: "@ =~= "Terminal: "@);
                s
            },
            None => "YShell terminal".to_owned(),
        }
    }

    fn terminal_body_text(&self) -> (s: String)
        requires
            self.wf(),
        ensures
            s@ == match self.active_runtime() {
                Some(r) => body_text(r),
                None => "Runtime is ready. Open a Quick Connect target or create a draft session."@,
            },
    {
        match self.active_index() {
            Some(i) => {
                let visible = self.sessions[i].visible_text();
                if is_blank_text(visible.as_str()) {
                    "Terminal runtime is initialized but no output is available yet.".to_owned()
                } else {
                    visible
                }
            },
            None => "Runtime is ready. Open a Quick Connect target or create a draft session.".to_owned(),
        }
    }

    fn session_summary_text(&self) -> (s: String)
        ensures
            s@ == summary_text(self.spec_runtimes()),
    {
        let n = self.sessions.len();
        if n == 0 {
            return "No runtime sessions yet.".to_owned();
        }
        let shown: usize = if n > 6 {
            6
        } else {
            n
        };
        let ghost lines = Seq::new(shown as nat, |i: int| sidebar_text(self.sessions@[i]));
        let mut out = String::new();
        let mut i: usize = 0;
        while i < shown
            invariant
                i <= shown,
                shown <= n,
                n == self.sessions@.len(),
                shown == if n > 6 { 6 } else { n },
                lines == Seq::new(shown as nat, |i: int| sidebar_text(self.sessions@[i])),
                out@ == joined_lines(lines.take(i as int)),
            decreases shown - i,
        {
            assert(lines.take(i + 1).drop_last() =~= lines.take(i as int));
            if i > 0 {
                push_str(&mut out, "\n");
            }
            let line = self.sessions[i].sidebar_summary();
            push_str(&mut out, line.as_str());
            proof {
                if i == 0 {
                    assert(Seq::<char>::empty() + line@ =~= line@);
                }
            }
            i = i + 1;
        }
        assert(lines.take(shown as int) =~= lines);
        if n > 6 {
            let ghost before = out@;
            push_str(&mut out, "\n");
            let mut more = String::new();
            push_str(&mut more, "... and ");
            push_decimal(&mut more, (n - 6) as u64);
            push_str(&mut more, " more");
            push_str(&mut out, more.as_str());
            proof {
                let extra = "... and "@ + decimal((n - 6) as nat) + " more"@;
                assert(Seq::<char>::empty() + "... and "@ =~= "... and "@);
                assert(lines.push(extra).drop_last() =~= lines);
                assert(out@ =~= joined_lines(lines) + "\n"@ + extra);
            }
        }
        out
    }

    /// What the UI shows now (see `shows`).
    pub fn projection(&self) -> (p: AppProjection)
        requires
            self.wf(),
        ensures
            self.shows(p),
    {
        AppProjection {
            config_dir_text: self.config_dir.clone(),
            active_session_text: self.active_session_label(),
            session_summary_text: self.session_summary_text(),
            tab_text: self.tab_text(),
            terminal_title_text: self.terminal_title_text(),
            terminal_body_text: self.terminal_body_text(),
            status_text: self.status_text.clone(),
            transport_backend_text: self.transport_backend.label().to_owned(),
            sftp_visible: self.sftp_visible,
            tunnels_visible: self.tunnels_visible,
            commands_visible: self.commands_visible,
        }
    }

    /// Shows or hides the SFTP panel.
    pub fn toggle_sftp(&mut self) -> (p: AppProjection)
        requires
            old(self).wf(),
        ensures
            final(self).wf(),
            final(self).spec_panels() == (!old(self).spec_panels().0, old(self).spec_panels().1, old(self).spec_panels().2),
            final(self).spec_status() == panel_text("SFTP"@, final(self).spec_panels().0),
            final(self).spec_runtimes() == old(self).spec_runtimes(),
            final(self).spec_active() == old(self).spec_active(),
            final(self).spec_document() == old(self).spec_document(),
            final(self).spec_backend() == old(self).spec_backend(),
            final(self).shows(p),
    {
        self.sftp_visible = !self.sftp_visible;
        self.status_text = if self.sftp_visible {
            "SFTP panel shown".to_owned()
        } else {
            "SFTP panel hidden".to_owned()
        };
        proof {
            reveal_strlit("SFTP panel shown");
            reveal_strlit("SFTP panel hidden");
            reveal_strlit("SFTP");
            reveal_strlit(" panel shown");
            reveal_strlit(" panel hidden");
            assert("SFTP"@ + " panel shown"@ =~= "SFTP panel shown"@);
            assert("SFTP"@ + " panel hidden"@ =~= "SFTP panel hidden"@);
        }
        self.projection()
    }

    /// Shows or hides the tunnels panel.
    pub fn toggle_tunnels(&mut self) -> (p: AppProjection)
        requires
            old(self).wf(),
        ensures
            final(self).wf(),
            final(self).spec_panels() == (old(self).spec_panels().0, !old(self).spec_panels().1, old(self).spec_panels().2),
            final(self).spec_status() == panel_text("Tunnels"@, final(self).spec_panels().1),
            final(self).spec_runtimes() == old(self).spec_runtimes(),
            final(self).spec_active() == old(self).spec_active(),
            final(self).spec_document() == old(self).spec_document(),
            final(self).spec_backend() == old(self).spec_backend(),
            final(self).shows(p),
    {
        self.tunnels_visible = !self.tunnels_visible;
        self.status_text = if self.tunnels_visible {
            "Tunnels panel shown".to_owned()
        } else {
            "Tunnels panel hidden".to_owned()
        };
        proof {
            reveal_strlit("Tunnels panel shown");
            reveal_strlit("Tunnels panel hidden");
            reveal_strlit("Tunnels");
            reveal_strlit(" panel shown");
            reveal_strlit(" panel hidden");
            assert("Tunnels"@ + " panel shown"@ =~= "Tunnels panel shown"@);
            assert("Tunnels"@ + " panel hidden"@ =~= "Tunnels panel hidden"@);
        }
        self.projection()
    }

    /// Shows or hides the quick-commands panel.
    pub fn toggle_commands(&mut self) -> (p: AppProjection)
        requires
            old(self).wf(),
        ensures
            final(self).wf(),
            final(self).spec_panels() == (old(self).spec_panels().0, old(self).spec_panels().1, !old(self).spec_panels().2),
            final(self).spec_status() == panel_text("Quick Commands"@, final(self).spec_panels().2),
            final(self).spec_runtimes() == old(self).spec_runtimes(),
            final(self).spec_active() == old(self).spec_active(),
            final(self).spec_document() == old(self).spec_document(),
            final(self).spec_backend() == old(self).spec_backend(),
            final(self).shows(p),
    {
        self.commands_visible = !self.commands_visible;
        self.status_text = if self.commands_visible {
            "Quick Commands panel shown".to_owned()
        } else {
            "Quick Commands panel hidden".to_owned()
        };
        proof {
            reveal_strlit("Quick Commands panel shown");
            reveal_strlit("Quick Commands panel hidden");
            reveal_strlit("Quick Commands");
            reveal_strlit(" panel shown");
            reveal_strlit(" panel hidden");
            assert("Quick Commands"@ + " panel shown"@ =~= "Quick Commands panel shown"@);
            assert("Quick Commands"@ + " panel hidden"@ =~= "Quick Commands panel hidden"@);
        }
        self.projection()
    }

    fn select_transport_backend(&mut self, backend: TransportBackend) -> (p: AppProjection)
        requires
            old(self).wf(),
        ensures
            final(self).wf(),
            final(self).spec_backend() == backend,
            final(self).spec_status() == backend_status(backend),
            final(self).spec_runtimes() == old(self).spec_runtimes(),
            final(self).spec_active() == old(self).spec_active(),
            final(self).spec_document() == old(self).spec_document(),
            final(self).spec_panels() == old(self).spec_panels(),
            final(self).shows(p),
    {
        self.transport_backend = backend;
        self.status_text = match backend {
            TransportBackend::Fake => "Transport backend set to `fake`. Quick Connect will use the deterministic shell adapter.".to_owned(),
            TransportBackend::Real => "Transport backend set to `real`. Quick Connect will enter the staged real-transport scaffold until TCP/SSH wiring exists.".to_owned(),
        };
        self.projection()
    }

    /// Shells open through the fake transport from now on.
    pub fn select_fake_transport_backend(&mut self) -> (p: AppProjection)
        requires
            old(self).wf(),
        ensures
            final(self).wf(),
            final(self).spec_backend() == TransportBackend::Fake,
            final(self).spec_status() == backend_status(TransportBackend::Fake),
            final(self).spec_runtimes() == old(self).spec_runtimes(),
            final(self).spec_active() == old(self).spec_active(),
            final(self).spec_document() == old(self).spec_document(),
            final(self).spec_panels() == old(self).spec_panels(),
            final(self).shows(p),
    {
        self.select_transport_backend(TransportBackend::Fake)
    }

    /// Shells open through the staged real transport from now on.
    pub fn select_real_transport_backend(&mut self) -> (p: AppProjection)
        requires
            old(self).wf(),
        ensures
            final(self).wf(),
            final(self).spec_backend() == TransportBackend::Real,
            final(self).spec_status() == backend_status(TransportBackend::Real),
            final(self).spec_runtimes() == old(self).spec_runtimes(),
            final(self).spec_active() == old(self).spec_active(),
            final(self).spec_document() == old(self).spec_document(),
            final(self).spec_panels() == old(self).spec_panels(),
            final(self).shows(p),
    {
        self.select_transport_backend(TransportBackend::Real)
    }

    /// The saved sessions.
    pub fn saved_session_profiles(&self) -> (s: &[SessionProfile])
        ensures
            s@ == self.spec_document().sessions@,
    {
        self.config_document.sessions.as_slice()
    }

    /// A `StateChanged` event for each runtime, in id order.
    pub fn emitted_events(&self) -> (events: Vec<SessionEvent>)
        ensures
            events@.len() == self.spec_runtimes().len(),
            forall|i: int| 0 <= i < events@.len() ==> #[trigger] events@[i]@ == (SessionEventView::StateChanged {
                session_id: self.spec_runtimes()[i].spec_session_id(),
                state: self.spec_runtimes()[i].state,
            }),
    {
        let mut events: Vec<SessionEvent> = Vec::new();
        let mut i: usize = 0;
        while i < self.sessions.len()
            invariant
                i <= self.sessions@.len(),
                events@.len() == i,
                forall|k: int| 0 <= k < i ==> #[trigger] events@[k]@ == (SessionEventView::StateChanged {
                    session_id: self.sessions@[k].spec_session_id(),
                    state: self.sessions@[k].state,
                }),
            decreases self.sessions.len() - i,
        {
            events.push(
                SessionEvent::StateChanged {
                    session_id: self.sessions[i].session_id().clone(),
                    state: self.sessions[i].state,
                },
            );
            i = i + 1;
        }
        events
    }

    /// Takes the next runtime ordinal.
    fn allocate_runtime_ordinal(&mut self) -> (n: usize)
        requires
            old(self).next_runtime_ordinal < usize::MAX,
        ensures
            n == old(self).next_runtime_ordinal,
            final(self).next_runtime_ordinal == old(self).next_runtime_ordinal + 1,
            final(self).sessions == old(self).sessions,
            final(self).config_document == old(self).config_document,
            final(self).config_dir == old(self).config_dir,
            final(self).active_session_id == old(self).active_session_id,
            final(self).status_text == old(self).status_text,
            final(self).transport_backend == old(self).transport_backend,
            final(self).dispatcher == old(self).dispatcher,
            final(self).sftp_visible == old(self).sftp_visible,
            final(self).tunnels_visible == old(self).tunnels_visible,
            final(self).commands_visible == old(self).commands_visible,
            final(self).recovered_from_backup == old(self).recovered_from_backup,
    {
        let n = self.next_runtime_ordinal;
        self.next_runtime_ordinal = n + 1;
        n
    }

    /// The active session's id, or the error that none is active.
    fn active_session_key(&self) -> (r: AppResult<String>)
        ensures
            match self.spec_active() {
                Some(k) => r matches Ok(s) && s@ == k,
                None => r matches Err(e) && e.message@ == "no active runtime session"@,
            },
    {
        match &self.active_session_id {
            Some(k) => Ok(k.clone()),
            None => Err(AppError::new("no active runtime session")),
        }
    }

    /// Creates a draft runtime, makes it active and returns the projection.
    pub fn handle_new_session(&mut self) -> (p: AppProjection)
        requires
            old(self).wf(),
            old(self).spec_ordinal() < usize::MAX,
        ensures
            final(self).wf(),
            final(self).spec_ordinal() == old(self).spec_ordinal() + 1,
            final(self).spec_active() == Some("draft-"@ + decimal(old(self).spec_ordinal())),
            final(self).spec_sessions().dom() == old(self).spec_sessions().dom().insert(
                "draft-"@ + decimal(old(self).spec_ordinal()),
            ),
            forall|k: Seq<char>| k != "draft-"@ + decimal(old(self).spec_ordinal()) && #[trigger] old(self).spec_sessions().contains_key(k)
                ==> final(self).spec_sessions()[k] == old(self).spec_sessions()[k],
            final(self).spec_status() == "Created a runtime-backed session draft. Next step is wiring this draft into saved-session editing and real connect."@,
            final(self).spec_document() == old(self).spec_document(),
            final(self).spec_backend() == old(self).spec_backend(),
            final(self).spec_panels() == old(self).spec_panels(),
            final(self).shows(p),
            drafted(
                final(self).spec_sessions()["draft-"@ + decimal(old(self).spec_ordinal())],
                old(self).spec_ordinal(),
            ),
    {
        let ordinal = self.allocate_runtime_ordinal();
        let mut runtime = SessionRuntime::draft(ordinal);
        runtime.append_status_line("This draft is runtime-owned but not yet connected.");
        let key = runtime.session_id().to_text();
        self.active_session_id = Some(key);
        self.status_text = "Created a runtime-backed session draft. Next step is wiring this draft into saved-session editing and real connect.".to_owned();
        insert_runtime(&mut self.sessions, runtime);
        self.projection()
    }
}


/// `r` is the draft runtime number `ordinal`: a new idle session waiting for
/// connection details, its terminal showing the two draft notes.
pub open spec fn drafted(r: SessionRuntime, ordinal: nat) -> bool {
    let first = run(
        initial_parser(),
        blank_terminal(),
        "Draft session created. Waiting for connection details."@ + "\n"@,
    );
    &&& r.wf()
    &&& r.spec_tab_id() == "tab-draft-"@ + decimal(ordinal)
    &&& r.display_name@ == "New Session"@
    &&& r.source == SessionSource::Draft
    &&& r.state == SessionState::Idle
    &&& r.shell_session is None
    &&& r.ssh_config.host@ == "example.com"@
    &&& terminal_of(r) == run(first.0, first.1, "This draft is runtime-owned but not yet connected."@ + "\n"@)
}

/// The state a newly activated runtime ends in: failed when its configuration
/// is refused, connected on the fake transport, connecting on the staged one.
pub open spec fn activated_state(backend: TransportBackend, config: SshConnectionConfig) -> SessionState {
    if config_problem(config) is Some {
        SessionState::Failed
    } else {
        match backend {
            TransportBackend::Fake => SessionState::Connected,
            TransportBackend::Real => SessionState::Connecting,
        }
    }
}

/// The status after activating a runtime.
pub open spec fn activation_status(r: SessionRuntime, backend: TransportBackend) -> Seq<char> {
    "Runtime session created for "@ + r.ssh_config.host@ + ":"@ + decimal(r.ssh_config.port as nat)
        + " (user="@ + crate::ssh::auth::auth_username(r.ssh_config.auth) + ") using the `"@
        + backend_label(backend) + "` shell backend. "@ + if r.state == SessionState::Connected {
        "The shell boundary is live."@
    } else {
        "The backend scaffold is present, but real SSH transport is still being wired."@
    }
}

/// Applies core events to the runtime of session `expected`.
fn apply_session_events(expected: &SessionId, runtime: &mut SessionRuntime, events: &Vec<SessionEvent>)
    requires
        old(runtime).wf(),
    ensures
        final(runtime).wf(),
        (final(runtime).state, terminal_of(*final(runtime))) == apply_events(
            old(runtime).state,
            terminal_of(*old(runtime)),
            event_views(events@),
            expected@,
        ),
        final(runtime).spec_session_id() == old(runtime).spec_session_id(),
        final(runtime).spec_tab_id() == old(runtime).spec_tab_id(),
        final(runtime).display_name == old(runtime).display_name,
        final(runtime).source == old(runtime).source,
        final(runtime).ssh_config == old(runtime).ssh_config,
        final(runtime).shell_session == old(runtime).shell_session,
{
    let ghost ev = event_views(events@);
    let mut i: usize = 0;
    while i < events.len()
        invariant
            i <= events@.len(),
            ev == event_views(events@),
            runtime.wf(),
            (runtime.state, terminal_of(*runtime)) == apply_events(
                old(runtime).state,
                terminal_of(*old(runtime)),
                ev.take(i as int),
                expected@,
            ),
            runtime.spec_session_id() == old(runtime).spec_session_id(),
            runtime.spec_tab_id() == old(runtime).spec_tab_id(),
            runtime.display_name == old(runtime).display_name,
            runtime.source == old(runtime).source,
            runtime.ssh_config == old(runtime).ssh_config,
            runtime.shell_session == old(runtime).shell_session,
        decreases events.len() - i,
    {
        assert(ev.take(i + 1).drop_last() =~= ev.take(i as int));
        assert(ev.take(i + 1).last() == events@[i as int]@);
        match &events[i] {
            SessionEvent::TabOpened { session_id, .. } => {
                if session_id.same_as(expected) {
                    runtime.append_status_line("Core tab opened for session.");
                }
            },
            SessionEvent::StateChanged { session_id, state } => {
                if session_id.same_as(expected) {
                    runtime.set_state(*state);
                    let mut line = String::new();
                    push_str(&mut line, "Core state updated: ");
                    push_str(&mut line, runtime.state_label());
                    runtime.append_status_line(line.as_str());
                    assert(Seq::<char>::empty() + "Core state updated: "@ =~= "Core state updated: "@);
                }
            },
            SessionEvent::Connecting { session_id } => {
                if session_id.same_as(expected) {
                    runtime.set_state(SessionState::Connecting);
                    runtime.append_status_line("Connection entering connecting state.");
                }
            },
            SessionEvent::Connected { session_id } => {
                if session_id.same_as(expected) {
                    runtime.set_state(SessionState::Connected);
                    runtime.append_status_line("Connection established.");
                }
            },
            SessionEvent::Disconnected { session_id, reason } => {
                if session_id.same_as(expected) {
                    runtime.set_state(SessionState::Disconnected);
                    let mut line = String::new();
                    push_str(&mut line, "Disconnected: ");
                    push_str(&mut line, reason.as_str());
                    runtime.append_status_line(line.as_str());
                    assert(Seq::<char>::empty() + "Disconnected: "@ =~= "Disconnected: "@);
                }
            },
            SessionEvent::Error { session_id, error } => {
                if session_id.same_as(expected) {
                    runtime.set_state(SessionState::Failed);
                    let mut line = String::new();
                    push_str(&mut line, "Session error: ");
                    push_str(&mut line, error.as_str());
                    runtime.append_status_line(line.as_str());
                    assert(Seq::<char>::empty() + "Session error: "@ =~= "Session error: "@);
                }
            },
            SessionEvent::TerminalOutput { session_id, bytes } => {
                if session_id.same_as(expected) {
                    runtime.terminal_parser.advance(&mut runtime.terminal_grid, bytes.as_slice());
                }
            },
            SessionEvent::TabClosed { .. } => {},
        }
        i = i + 1;
    }
    assert(ev.take(events@.len() as int) =~= ev);
}

/// The display text of an SSH error.
pub open spec fn ssh_error_text(e: SshError) -> Seq<char> {
    ssh_kind_name(e.kind) + ": "@ + e.message@
}

/// Dispatches a state change and applies the resulting event to `runtime`;
/// a session the core does not know is refused and nothing changes.
fn record_state(
    dispatcher: &mut CoreCommandDispatcher,
    session_id: &SessionId,
    runtime: &mut SessionRuntime,
    state: SessionState,
) -> (r: Result<(), CommandDispatchError>)
    requires
        old(runtime).wf(),
    ensures
        final(runtime).wf(),
        final(dispatcher).registry().session_index(session_id@) is Some <==> old(dispatcher).registry().session_index(session_id@) is Some,
        old(dispatcher).registry().session_index(session_id@) is Some ==> r is Ok && final(runtime).state == state
            && terminal_of(*final(runtime)) == with_line(terminal_of(*old(runtime)), "Core state updated: "@ + state_name(state))
            && final(dispatcher).registry() == spec_set_state(old(dispatcher).registry(), session_id@, state),
        old(dispatcher).registry().session_index(session_id@) is None ==> (r matches Err(e) && e@
            == unknown_session_message(session_id@) && *final(runtime) == *old(runtime)
            && final(dispatcher).registry() == old(dispatcher).registry()),
        final(runtime).spec_session_id() == old(runtime).spec_session_id(),
        final(runtime).spec_tab_id() == old(runtime).spec_tab_id(),
        final(runtime).display_name == old(runtime).display_name,
        final(runtime).source == old(runtime).source,
        final(runtime).ssh_config == old(runtime).ssh_config,
        final(runtime).shell_session == old(runtime).shell_session,
{
    proof {
        law_set_state_keeps_sessions(dispatcher.registry(), session_id@, state, session_id@);
    }
    let r = dispatcher.dispatch(SessionCommand::SetSessionState { session_id: session_id.clone(), state });
    match r {
        Ok(events) => {
            proof {
                let ev = event_views(events@);
                assert(ev.drop_last() =~= Seq::<SessionEventView>::empty());
                assert(apply_events(runtime.state, terminal_of(*runtime), ev.drop_last(), session_id@)
                    == (runtime.state, terminal_of(*runtime)));
                assert(ev.last() == (SessionEventView::StateChanged { session_id: session_id@, state }));
            }
            apply_session_events(session_id, runtime, &events);
            Ok(())
        },
        Err(e) => Err(e),
    }
}

/// `t` with one more line of text shown.
pub open spec fn with_line(t: (ParserView, GridView), line: Seq<char>) -> (ParserView, GridView) {
    run(t.0, t.1, line + "\n"@)
}

/// The output a freshly opened shell for `c` has waiting on `backend`.
pub open spec fn opened_output(backend: TransportBackend, c: SshConnectionConfig) -> Seq<Seq<u8>> {
    match backend {
        TransportBackend::Fake => seq![
            encode_utf8(fake_banner(c)),
            encode_utf8(fake_established(c)),
            encode_utf8("$ "@),
        ],
        TransportBackend::Real => staged_greeting(c),
    }
}

/// The terminal of a runtime after activation, from its terminal `t0` and
/// state `s0` before: the core's notes, then the shell's greeting (or why it
/// could not open), then the state reached.
#[verifier::opaque]
pub open spec fn activation_terminal(
    t0: (ParserView, GridView),
    s0: SessionState,
    backend: TransportBackend,
    c: SshConnectionConfig,
) -> (ParserView, GridView) {
    let t3 = with_line(
        with_line(with_line(t0, "Core tab opened for session."@), "Core state updated: "@ + state_name(s0)),
        "Core session entry created. Opening shell runtime boundary."@,
    );
    match config_problem(c) {
        Some(m) => with_line(
            with_line(
                t3,
                "Shell runtime failed before real transport wiring: "@ + ssh_kind_name(
                    SshErrorKind::Configuration,
                ) + ": "@ + m,
            ),
            "Core state updated: "@ + state_name(SessionState::Failed),
        ),
        None => {
            let q = opened_output(backend, c);
            let t4 = feed_chunks(t3.0, t3.1, q.take(leading_chunks(q) as int));
            match backend {
                TransportBackend::Fake => with_line(t4, "Core state updated: "@ + state_name(SessionState::Connected)),
                TransportBackend::Real => with_line(
                    with_line(t4, "Core state updated: "@ + state_name(SessionState::Connecting)),
                    "Shell runtime opened a staged backend scaffold. The connection has not reached a live shell yet."@,
                ),
            }
        },
    }
}

/// The terminal after reopening a shell on `backend` for `c`, from the
/// terminal `t0` before: the reconnect notes, the shell's greeting, then the
/// state reached.
#[verifier::opaque]
pub open spec fn reconnect_terminal(
    t0: (ParserView, GridView),
    backend: TransportBackend,
    c: SshConnectionConfig,
) -> (ParserView, GridView) {
    let t2 = with_line(
        with_line(t0, "Reconnecting runtime shell session."@),
        "Core state updated: "@ + state_name(SessionState::Connecting),
    );
    let q = opened_output(backend, c);
    let t3 = feed_chunks(t2.0, t2.1, q.take(leading_chunks(q) as int));
    match backend {
        TransportBackend::Fake => with_line(t3, "Core state updated: "@ + state_name(SessionState::Connected)),
        TransportBackend::Real => with_line(
            t3,
            "Shell runtime reopened a staged backend scaffold. Connection is not live yet."@,
        ),
    }
}

/// `r` is `before` activated on `backend`: same identity and connection, in
/// the state `activated_state` gives, with a shell unless opening failed.
pub open spec fn activated(r: SessionRuntime, before: SessionRuntime, backend: TransportBackend) -> bool {
    &&& r.wf()
    &&& r.spec_session_id() == before.spec_session_id()
    &&& r.spec_tab_id() == before.spec_tab_id()
    &&& r.display_name == before.display_name
    &&& r.source == before.source
    &&& r.ssh_config == before.ssh_config
    &&& r.state == activated_state(backend, before.ssh_config)
    &&& (r.shell_session is Some <==> config_problem(before.ssh_config) is None)
}

/// Registers `runtime` with the core and opens its shell on `backend`.
/// Recording the same state twice is recording it once.
proof fn lemma_set_state_twice(m: ManagerView, id: Seq<char>, state: SessionState)
    ensures
        spec_set_state(spec_set_state(m, id, state), id, state) == spec_set_state(m, id, state),
{
    law_set_state_keeps_sessions(m, id, state, id);
    let m1 = spec_set_state(m, id, state);
    match m.session_index(id) {
        Some(i) => {
            crate::text::lemma_index_in(crate::session::session_manager::session_ids(m.sessions), id);
            assert(m1.sessions[i as int] == SessionHandleView { state, ..m.sessions[i as int] });
            assert(m1.sessions.update(i as int, SessionHandleView { state, ..m1.sessions[i as int] })
                =~= m1.sessions);
        },
        None => {},
    }
}

/// The core's registry after activating a runtime: its tab opened, its state
/// recorded as it was, then as the activation left it.
pub open spec fn activation_registry(
    m: ManagerView,
    tab: Seq<char>,
    session: Seq<char>,
    before: SessionState,
    after: SessionState,
) -> ManagerView {
    spec_set_state(spec_set_state(spec_open_tab(m, tab, session), session, before), session, after)
}

fn bring_up(
    dispatcher: &mut CoreCommandDispatcher,
    backend: TransportBackend,
    runtime: SessionRuntime,
) -> (r: SessionRuntime)
    requires
        runtime.wf(),
        runtime.shell_session is None,
    ensures
        activated(r, runtime, backend),
        terminal_of(r) == activation_terminal(terminal_of(runtime), runtime.state, backend, runtime.ssh_config),
        final(dispatcher).registry() == activation_registry(
            old(dispatcher).registry(),
            runtime.spec_tab_id(),
            runtime.spec_session_id(),
            runtime.state,
            r.state,
        ),
{
    let ghost t0 = terminal_of(runtime);
    let ghost s0 = runtime.state;
    let mut runtime = runtime;
    let session_id = runtime.session_id().clone();
    let tab_id = runtime.tab_id().clone();
    proof {
        law_open_registers_session(dispatcher.registry(), tab_id@, session_id@);
    }
    let opened = dispatcher.dispatch(
        SessionCommand::OpenSession { tab_id: tab_id.clone(), session_id: session_id.clone() },
    );
    match opened {
        Ok(events) => {
            proof {
                let ev = event_views(events@);
                assert(ev.drop_last() =~= Seq::<SessionEventView>::empty());
                assert(apply_events(runtime.state, terminal_of(runtime), ev.drop_last(), session_id@)
                    == (runtime.state, terminal_of(runtime)));
                assert(ev.last() == (SessionEventView::TabOpened { tab_id: tab_id@, session_id: session_id@ }));
            }
            apply_session_events(&session_id, &mut runtime, &events);
        },
        Err(_) => {},
    }
    assert(terminal_of(runtime) == with_line(t0, "Core tab opened for session."@));
    assert(runtime.state == s0);
    let state = runtime.state;
    let _ = record_state(dispatcher, &session_id, &mut runtime, state);
    runtime.append_status_line("Core session entry created. Opening shell runtime boundary.");
    let ghost t3 = with_line(
        with_line(with_line(t0, "Core tab opened for session."@), "Core state updated: "@ + state_name(s0)),
        "Core session entry created. Opening shell runtime boundary."@,
    );
    assert(terminal_of(runtime) == t3);
    let ghost config = runtime.ssh_config;
    match backend.open_shell(&runtime.ssh_config) {
        Ok(shell) => {
            proof {
                if shell is Real {
                    lemma_fresh_real_shell_not_connected(config, shell->Real_0);
                    lemma_fresh_real_shell_greeting(config, shell->Real_0);
                }
                assert(shell.pending() == opened_output(backend, config));
            }
            let ghost q = shell.pending();
            let connected = shell.is_connected();
            runtime.attach_shell_session(shell);
            let polled = runtime.poll_shell_output();
            let ghost t4 = feed_chunks(t3.0, t3.1, q.take(leading_chunks(q) as int));
            assert(polled is Ok);
            assert(terminal_of(runtime) == t4);
            if connected {
                let _ = record_state(dispatcher, &session_id, &mut runtime, SessionState::Connected);
                assert(terminal_of(runtime) == with_line(t4, "Core state updated: "@ + state_name(SessionState::Connected)));
            } else {
                let _ = record_state(dispatcher, &session_id, &mut runtime, SessionState::Connecting);
                runtime.append_status_line(
                    "Shell runtime opened a staged backend scaffold. The connection has not reached a live shell yet.",
                );
                assert(terminal_of(runtime) == with_line(
                    with_line(t4, "Core state updated: "@ + state_name(SessionState::Connecting)),
                    "Shell runtime opened a staged backend scaffold. The connection has not reached a live shell yet."@,
                ));
            }
            proof {
                reveal(activation_terminal);
                assert(config_problem(config) is None);
                assert(connected <==> backend is Fake);
            }
        },
        Err(error) => {
            let mut line = String::new();
            push_str(&mut line, "Shell runtime failed before real transport wiring: ");
            let text = error.describe();
            push_str(&mut line, text.as_str());
            proof {
                assert(Seq::<char>::empty() + "Shell runtime failed before real transport wiring: "@
                    =~= "Shell runtime failed before real transport wiring: "@);
            }
            proof {
                let m = config_problem(config).unwrap();
                assert(error.kind == SshErrorKind::Configuration);
                assert(error.message@ == m);
                assert(line@ =~= "Shell runtime failed before real transport wiring: "@ + ssh_kind_name(
                    SshErrorKind::Configuration,
                ) + ": "@ + m);
            }
            runtime.append_status_line(line.as_str());
            let _ = record_state(dispatcher, &session_id, &mut runtime, SessionState::Failed);
            proof {
                reveal(activation_terminal);
            }
        },
    }
    runtime
}

impl AppRuntime {
    /// Registers `runtime` with the core, opens its shell on the selected
    /// transport, makes it the active session and reports how far it got.
    fn activate_runtime_session(&mut self, runtime: SessionRuntime) -> (r: AppResult<AppProjection>)
        requires
            old(self).wf(),
            runtime.wf(),
            runtime.shell_session is None,
        ensures
            final(self).wf(),
            r matches Ok(p) && final(self).shows(p),
            final(self).spec_active() == Some(runtime.spec_session_id()),
            final(self).spec_sessions().dom() == old(self).spec_sessions().dom().insert(runtime.spec_session_id()),
            forall|k: Seq<char>| k != runtime.spec_session_id() && #[trigger] old(self).spec_sessions().contains_key(k)
                ==> final(self).spec_sessions()[k] == old(self).spec_sessions()[k],
            activated(final(self).spec_sessions()[runtime.spec_session_id()], runtime, old(self).spec_backend()),
            final(self).spec_status() == activation_status(
                final(self).spec_sessions()[runtime.spec_session_id()],
                old(self).spec_backend(),
            ),
            final(self).spec_registry() == activation_registry(
                old(self).spec_registry(),
                runtime.spec_tab_id(),
                runtime.spec_session_id(),
                runtime.state,
                final(self).spec_sessions()[runtime.spec_session_id()].state,
            ),
            terminal_of(final(self).spec_sessions()[runtime.spec_session_id()]) == activation_terminal(
                terminal_of(runtime),
                runtime.state,
                old(self).spec_backend(),
                runtime.ssh_config,
            ),
            final(self).spec_document() == old(self).spec_document(),
            final(self).spec_backend() == old(self).spec_backend(),
            final(self).spec_panels() == old(self).spec_panels(),
            final(self).spec_ordinal() == old(self).spec_ordinal(),
            final(self).spec_config_dir() == old(self).spec_config_dir(),
    {
        let runtime = bring_up(&mut self.dispatcher, self.transport_backend, runtime);
        let key = runtime.session_id().to_text();
        self.active_session_id = Some(key);
        let mut status = String::new();
        push_str(&mut status, "Runtime session created for ");
        let host = runtime.host_label();
        push_str(&mut status, host.as_str());
        push_str(&mut status, " (user=");
        push_str(&mut status, runtime.username_label());
        push_str(&mut status, ") using the `");
        push_str(&mut status, self.transport_backend.label());
        push_str(&mut status, "` shell backend. ");
        if runtime.state == SessionState::Connected {
            push_str(&mut status, "The shell boundary is live.");
        } else {
            push_str(&mut status, "The backend scaffold is present, but real SSH transport is still being wired.");
        }
        assert(Seq::<char>::empty() + "Runtime session created for "@ =~= "Runtime session created for "@);
        self.status_text = status;
        let ghost rv = runtime;
        insert_runtime(&mut self.sessions, runtime);
        assert(self.spec_sessions()[rv.spec_session_id()] == rv);
        Ok(self.projection())
    }
}


/// `after` is `before` with runtime `key` newly activated on the selected
/// transport: it is active and took the next ordinal, and nothing else changed.
pub open spec fn opened_runtime(before: AppRuntime, after: AppRuntime, key: Seq<char>) -> bool {
    let r = after.spec_sessions()[key];
    &&& after.wf()
    &&& after.spec_ordinal() == before.spec_ordinal() + 1
    &&& after.spec_active() == Some(key)
    &&& after.spec_sessions().dom() == before.spec_sessions().dom().insert(key)
    &&& forall|k: Seq<char>| k != key && #[trigger] before.spec_sessions().contains_key(k)
        ==> after.spec_sessions()[k] == before.spec_sessions()[k]
    &&& r.wf()
    &&& r.state == activated_state(before.spec_backend(), r.ssh_config)
    &&& (r.shell_session is Some <==> config_problem(r.ssh_config) is None)
    &&& after.spec_status() == activation_status(r, before.spec_backend())
    &&& after.spec_document() == before.spec_document()
    &&& after.spec_backend() == before.spec_backend()
    &&& after.spec_panels() == before.spec_panels()
    &&& after.spec_config_dir() == before.spec_config_dir()
}

/// Nothing a caller can observe changed.
pub open spec fn unchanged(before: AppRuntime, after: AppRuntime) -> bool {
    &&& after.wf()
    &&& after.spec_sessions() == before.spec_sessions()
    &&& after.spec_active() == before.spec_active()
    &&& after.spec_status() == before.spec_status()
    &&& after.spec_document() == before.spec_document()
    &&& after.spec_backend() == before.spec_backend()
    &&& after.spec_panels() == before.spec_panels()
    &&& after.spec_ordinal() == before.spec_ordinal()
    &&& after.spec_config_dir() == before.spec_config_dir()
    &&& after.spec_registry() == before.spec_registry()
}

/// Two runtimes for the same session and connection.
pub open spec fn same_identity(a: SessionRuntime, b: SessionRuntime) -> bool {
    &&& a.spec_session_id() == b.spec_session_id()
    &&& a.spec_tab_id() == b.spec_tab_id()
    &&& a.display_name == b.display_name
    &&& a.source == b.source
    &&& a.ssh_config == b.ssh_config
}

/// Only runtime `key` changed, keeping its identity, besides the status and
/// the core registry.
pub open spec fn changed_only(before: AppRuntime, after: AppRuntime, key: Seq<char>) -> bool {
    &&& after.wf()
    &&& after.spec_sessions().dom() == before.spec_sessions().dom()
    &&& forall|k: Seq<char>| k != key && #[trigger] before.spec_sessions().contains_key(k)
        ==> after.spec_sessions()[k] == before.spec_sessions()[k]
    &&& same_identity(after.spec_sessions()[key], before.spec_sessions()[key])
    &&& after.spec_sessions()[key].wf()
    &&& after.spec_active() == before.spec_active()
    &&& after.spec_document() == before.spec_document()
    &&& after.spec_backend() == before.spec_backend()
    &&& after.spec_panels() == before.spec_panels()
    &&& after.spec_ordinal() == before.spec_ordinal()
    &&& after.spec_config_dir() == before.spec_config_dir()
}

/// A saved profile made from runtime `r` under `id` (see `to_session_profile`).
pub open spec fn profile_of(p: SessionProfile, r: SessionRuntime, id: Seq<char>) -> bool {
    &&& p.id@ == id
    &&& p.name@ == r.display_name@
    &&& p.host@ == r.ssh_config.host@
    &&& p.port == r.ssh_config.port
    &&& opt_string_view(p.username) == Some(auth_username(r.ssh_config.auth))
    &&& p.auth_profile_id is None
    &&& p.proxy_profile_id is None
    &&& p.sftp is None
    &&& p.tunnel is None
    &&& p.appearance is None
    &&& p.logging is None
    &&& p.tags@.len() == 0
}

/// The status after saving a profile.
pub open spec fn saved_status(id: Seq<char>, count: nat) -> Seq<char> {
    "Saved active runtime session as profile `"@ + id + "`. Config now contains "@ + decimal(count)
        + " saved session(s)."@
}

/// The status after reconnecting on `backend`.
pub open spec fn reconnect_status(backend: TransportBackend) -> Seq<char> {
    (match backend {
        TransportBackend::Fake => "Reconnected"@,
        TransportBackend::Real => "Reopened"@,
    }) + " the active runtime session through the `"@ + backend_label(backend) + "` shell backend."@
}

/// The message for a saved session that does not exist.
pub open spec fn not_found_message(id: Seq<char>) -> Seq<char> {
    "saved session `"@ + id + "` was not found"@
}

impl AppRuntime {
    /// Why no runtime is active, if none is: no active id, or an id that
    /// names no runtime.
    pub open spec fn active_error(&self) -> Option<Seq<char>> {
        match self.spec_active() {
            None => Some("no active runtime session"@),
            Some(k) => if self.spec_sessions().contains_key(k) {
                None
            } else {
                Some("active runtime session is missing"@)
            },
        }
    }

    /// The active runtime's position.
    fn active_position(&self) -> (r: AppResult<usize>)
        requires
            self.wf(),
        ensures
            match self.active_error() {
                Some(m) => r matches Err(e) && e.message@ == m,
                None => r matches Ok(i) && i < self.sessions@.len() && self.sessions@[i as int]
                    == self.spec_sessions()[self.spec_active().unwrap()]
                    && self.sessions@[i as int].spec_session_id() == self.spec_active().unwrap(),
            },
    {
        match &self.active_session_id {
            None => Err(AppError::new("no active runtime session")),
            Some(k) => match runtime_position(&self.sessions, k.as_str()) {
                Some(i) => {
                    proof {
                        lemma_runtime_at(self.sessions@, i as int);
                    }
                    Ok(i)
                },
                None => Err(AppError::new("active runtime session is missing")),
            },
        }
    }

    /// Parses a Quick Connect target and activates a runtime for it; a
    /// target that does not parse is refused with the parser's message.
    pub fn handle_quick_connect(&mut self, input: &str) -> (r: AppResult<AppProjection>)
        requires
            old(self).wf(),
            old(self).spec_ordinal() < usize::MAX,
        ensures
            match spec_parse_quick_connect(input@) {
                Err(e) => (r matches Err(err) && err.message@ == quick_connect_message(e)) && unchanged(
                    *old(self),
                    *final(self),
                ),
                Ok(t) => {
                    let key = "quick-connect-"@ + decimal(old(self).spec_ordinal());
                    let rt = final(self).spec_sessions()[key];
                    &&& r matches Ok(p) && final(self).shows(p)
                    &&& opened_runtime(*old(self), *final(self), key)
                    &&& rt.spec_tab_id() == "tab-quick-connect-"@ + decimal(old(self).spec_ordinal())
                    &&& rt.display_name@ == target_name(t)
                    &&& rt.source == SessionSource::QuickConnect
                    &&& rt.ssh_config.host@ == t.host
                    &&& rt.ssh_config.port == t.port
                    &&& rt.ssh_config.auth matches AuthMethod::Agent { username } && username@ == match t.username {
                        Some(u) => u,
                        None => "user"@,
                    }
                    &&& final(self).spec_registry() == activation_registry(
                        old(self).spec_registry(),
                        rt.spec_tab_id(),
                        key,
                        SessionState::Connecting,
                        rt.state,
                    )
                    &&& terminal_of(rt) == activation_terminal(
                        run(initial_parser(), blank_terminal(), "Quick Connect accepted. Preparing runtime session."@ + "\n"@),
                        SessionState::Connecting,
                        old(self).spec_backend(),
                        rt.ssh_config,
                    )
                },
            },
    {
        let target = match parse_quick_connect(input) {
            Ok(t) => t,
            Err(e) => {
                return Err(AppError::from_error(e.describe()));
            },
        };
        let ordinal = self.allocate_runtime_ordinal();
        let runtime = SessionRuntime::from_quick_connect(target, ordinal);
        self.activate_runtime_session(runtime)
    }

    /// Activates a runtime for the saved session `profile_id`.
    pub fn open_saved_session(&mut self, profile_id: &str) -> (r: AppResult<AppProjection>)
        requires
            old(self).wf(),
            old(self).spec_ordinal() < usize::MAX,
        ensures
            match find_in_document(old(self).spec_document(), profile_id@) {
                None => (r matches Err(e) && e.message@ == not_found_message(profile_id@)) && unchanged(
                    *old(self),
                    *final(self),
                ),
                Some(p) => {
                    let rt = final(self).spec_sessions()[p.id@];
                    &&& r matches Ok(pr) && final(self).shows(pr)
                    &&& opened_runtime(*old(self), *final(self), p.id@)
                    &&& rt.spec_tab_id() == "tab-saved-"@ + decimal(old(self).spec_ordinal())
                    &&& rt.display_name == p.name
                    &&& rt.source matches SessionSource::SavedSession { profile_id } && profile_id == p.id
                    &&& rt.ssh_config.host@ == p.host@
                    &&& rt.ssh_config.port == p.port
                    &&& rt.ssh_config.auth matches AuthMethod::Agent { username } && username@ == match opt_string_view(
                        p.username,
                    ) {
                        Some(u) => u,
                        None => "user"@,
                    }
                    &&& final(self).spec_registry() == activation_registry(
                        old(self).spec_registry(),
                        rt.spec_tab_id(),
                        p.id@,
                        SessionState::Idle,
                        rt.state,
                    )
                    &&& terminal_of(rt) == activation_terminal(
                        run(initial_parser(), blank_terminal(), "Saved session loaded into runtime inventory."@ + "\n"@),
                        SessionState::Idle,
                        old(self).spec_backend(),
                        rt.ssh_config,
                    )
                },
            },
    {
        let runtime = match self.config_document.find_session(profile_id) {
            Some(profile) => SessionRuntime::from_profile(profile, self.next_runtime_ordinal),
            None => {
                let mut message = String::new();
                push_str(&mut message, "saved session `");
                push_str(&mut message, profile_id);
                push_str(&mut message, "` was not found");
                assert(Seq::<char>::empty() + "saved session `"@ =~= "saved session `"@);
                return Err(AppError::from_error(message));
            },
        };
        let _ = self.allocate_runtime_ordinal();
        self.activate_runtime_session(runtime)
    }

    /// Activates a runtime for the first saved session.
    pub fn open_first_saved_session(&mut self) -> (r: AppResult<AppProjection>)
        requires
            old(self).wf(),
            old(self).spec_ordinal() < usize::MAX,
        ensures
            old(self).spec_document().sessions@.len() == 0 ==> (r matches Err(e) && e.message@
                == "no saved sessions are available"@) && unchanged(*old(self), *final(self)),
            old(self).spec_document().sessions@.len() > 0 ==> {
                let p = old(self).spec_document().sessions@[0];
                let rt = final(self).spec_sessions()[p.id@];
                &&& r matches Ok(pr) && final(self).shows(pr)
                &&& opened_runtime(*old(self), *final(self), p.id@)
                &&& rt.spec_tab_id() == "tab-saved-"@ + decimal(old(self).spec_ordinal())
                &&& rt.display_name == p.name
                &&& rt.source matches SessionSource::SavedSession { profile_id } && profile_id == p.id
                &&& rt.ssh_config.host@ == p.host@
                &&& rt.ssh_config.port == p.port
                &&& final(self).spec_registry() == activation_registry(
                    old(self).spec_registry(),
                    rt.spec_tab_id(),
                    p.id@,
                    SessionState::Idle,
                    rt.state,
                )
                &&& terminal_of(rt) == activation_terminal(
                    run(initial_parser(), blank_terminal(), "Saved session loaded into runtime inventory."@ + "\n"@),
                    SessionState::Idle,
                    old(self).spec_backend(),
                    rt.ssh_config,
                )
            },
    {
        if self.config_document.sessions.len() == 0 {
            return Err(AppError::new("no saved sessions are available"));
        }
        let first_id = self.config_document.sessions[0].id.clone();
        proof {
            let s = self.config_document.sessions@;
            assert(crate::config::schema::session_ids(s)[0] == first_id@);
            assert(find_in_list(s, first_id@) == Some(s[0]));
        }
        self.open_saved_session(first_id.as_str())
    }

    /// Adds the active runtime to the saved sessions under a fresh id (see
    /// `fresh_profile_id`), which it returns; persisting the document and
    /// `finish_saving_session` complete the save.
    pub fn save_active_session(&mut self) -> (r: AppResult<String>)
        requires
            old(self).wf(),
            old(self).spec_document().sessions@.len() < usize::MAX,
        ensures
            final(self).wf(),
            old(self).active_error() matches Some(m) ==> (r matches Err(e) && e.message@ == m) && unchanged(
                *old(self),
                *final(self),
            ),
            old(self).active_error() is None ==> {
                let rt = old(self).active_runtime().unwrap();
                let saved = final(self).spec_document().sessions@;
                &&& r matches Ok(id) && fresh_profile_id(
                    profile_ids(old(self).spec_document().sessions@),
                    rt.ssh_config.host@,
                    id@,
                ) && profile_of(saved.last(), rt, id@)
                &&& saved.drop_last() == old(self).spec_document().sessions@
                &&& saved.len() == old(self).spec_document().sessions@.len() + 1
                &&& final(self).spec_document() == ConfigDocument {
                    sessions: final(self).spec_document().sessions,
                    ..old(self).spec_document()
                }
                &&& final(self).spec_sessions() == old(self).spec_sessions()
                &&& final(self).spec_active() == old(self).spec_active()
                &&& final(self).spec_status() == old(self).spec_status()
                &&& final(self).spec_backend() == old(self).spec_backend()
                &&& final(self).spec_panels() == old(self).spec_panels()
                &&& final(self).spec_ordinal() == old(self).spec_ordinal()
                &&& final(self).spec_config_dir() == old(self).spec_config_dir()
            },
    {
        let i = match self.active_position() {
            Ok(i) => i,
            Err(e) => {
                return Err(e);
            },
        };
        let profile_id = self.next_saved_profile_id(self.sessions[i].ssh_config.host.as_str());
        let profile = self.sessions[i].to_session_profile(profile_id.as_str());
        let ghost before = self.config_document.sessions@;
        self.config_document.sessions.push(profile);
        assert(self.config_document.sessions@.drop_last() =~= before);
        Ok(profile_id)
    }

    /// Reports a completed save of profile `profile_id`.
    pub fn finish_saving_session(&mut self, profile_id: &str) -> (p: AppProjection)
        requires
            old(self).wf(),
        ensures
            final(self).spec_status() == saved_status(profile_id@, old(self).spec_document().sessions@.len()),
            final(self).shows(p),
            final(self).wf(),
            final(self).spec_sessions() == old(self).spec_sessions(),
            final(self).spec_active() == old(self).spec_active(),
            final(self).spec_document() == old(self).spec_document(),
            final(self).spec_backend() == old(self).spec_backend(),
            final(self).spec_panels() == old(self).spec_panels(),
            final(self).spec_ordinal() == old(self).spec_ordinal(),
            final(self).spec_config_dir() == old(self).spec_config_dir(),
    {
        let mut status = String::new();
        push_str(&mut status, "Saved active runtime session as profile `");
        push_str(&mut status, profile_id);
        push_str(&mut status, "`. Config now contains ");
        push_decimal(&mut status, self.config_document.sessions.len() as u64);
        push_str(&mut status, " saved session(s).");
        assert(Seq::<char>::empty() + "Saved active runtime session as profile `"@
            =~= "Saved active runtime session as profile `"@);
        self.status_text = status;
        self.projection()
    }
}

/// The status after sending `n` bytes of input.
pub open spec fn sent_status(n: nat) -> Seq<char> {
    "Sent "@ + decimal(n) + " bytes through the runtime terminal pipeline."@
}

/// The status after resizing to `columns` x `rows`.
pub open spec fn resized_status(columns: u16, rows: u16) -> Seq<char> {
    "Resized runtime terminal to "@ + decimal(columns as nat) + "x"@ + decimal(rows as nat) + "."@
}

/// After the active shell went from `before`'s shell to `sh2` with result
/// `w` (input or a resize): a refusal is reported with the shell's error
/// text and the runtime keeps `sh2` and its terminal; otherwise the call
/// succeeds, the output `sh2` has waiting is drained onto the terminal, and
/// the same channel stays with the rest of its queue.
pub open spec fn shell_took(
    sh2: AnyShell,
    w: Result<(), SshError>,
    before: SessionRuntime,
    after: SessionRuntime,
    r: AppResult<AppProjection>,
) -> bool {
    match w {
        Err(e) => (r matches Err(err) && err.message@ == ssh_error_text(e)) && after.shell_session == Some(sh2)
            && terminal_of(after) == terminal_of(before),
        Ok(_) => {
            &&& r is Ok
            &&& (after.shell_session matches Some(sh3) && sh2.same_channel(sh3) && sh3.pending()
                == after_drain(sh2.pending()))
            &&& terminal_of(after) == feed_chunks(
                before.terminal_parser@,
                before.terminal_grid@,
                sh2.pending().take(leading_chunks(sh2.pending()) as int),
            )
        },
    }
}

impl AppRuntime {
    /// Replaces the runtime at `i` by the result of `f`-like work done in
    /// place; this proof step relates the new list to the map view.
    proof fn lemma_runtime_replaced(before: Seq<SessionRuntime>, after: Seq<SessionRuntime>, i: int)
        requires
            sorted_runtimes(before),
            0 <= i < before.len(),
            after == before.update(i, after[i]),
            after[i].spec_session_id() == before[i].spec_session_id(),
        ensures
            sorted_runtimes(after),
            runtime_map(after) == runtime_map(before).insert(before[i].spec_session_id(), after[i]),
            runtime_map(after).dom() == runtime_map(before).dom(),
    {
        lemma_runtime_update(before, i, after[i]);
        lemma_runtime_at(before, i);
        assert(runtime_map(after).dom() =~= runtime_map(before).dom());
    }

    /// Sends `input` to the active session: the core must know the session,
    /// then the shell takes the bytes and its output reaches the terminal.
    pub fn send_active_terminal_input(&mut self, input: &str) -> (r: AppResult<AppProjection>)
        requires
            old(self).wf(),
        ensures
            final(self).wf(),
            old(self).active_error() matches Some(m) ==> (r matches Err(e) && e.message@ == m) && unchanged(
                *old(self),
                *final(self),
            ),
            old(self).active_error() is None ==> {
                let k = old(self).spec_active().unwrap();
                let before = old(self).spec_sessions()[k];
                let after = final(self).spec_sessions()[k];
                if old(self).spec_registry().session_index(k) is None {
                    (r matches Err(e) && e.message@ == unknown_session_message(k)) && unchanged(
                        *old(self),
                        *final(self),
                    )
                } else {
                    &&& changed_only(*old(self), *final(self), k)
                    &&& final(self).spec_registry() == old(self).spec_registry()
                    &&& after.state == before.state
                    &&& (before.shell_session is None ==> r is Ok && terminal_of(after) == terminal_of(before)
                        && after.shell_session is None)
                    &&& (before.shell_session matches Some(sh) ==> exists|sh2: AnyShell, w: Result<(), SshError>|
                        #[trigger] sh.wrote(sh2, encode_utf8(input@), w) && shell_took(sh2, w, before, after, r))
                    &&& match r {
                        Ok(p) => final(self).shows(p) && final(self).spec_status() == sent_status(
                            encode_utf8(input@).len(),
                        ),
                        Err(e) => final(self).spec_status() == old(self).spec_status(),
                    }
                }
            },
    {
        let i = match self.active_position() {
            Ok(i) => i,
            Err(e) => {
                return Err(e);
            },
        };
        let session_id = self.sessions[i].session_id().clone();
        let bytes = bytes_of(input);
        let sent = self.dispatcher.dispatch(
            SessionCommand::SendTerminalInput { session_id, bytes: bytes_of(input) },
        );
        match sent {
            Ok(_) => {},
            Err(e) => {
                return Err(AppError::from_error(e.message().to_owned()));
            },
        }
        let ghost s = self.sessions@;
        let written = self.sessions[i].write_terminal_input(bytes.as_slice());
        proof {
            Self::lemma_runtime_replaced(s, self.sessions@, i as int);
            let after = self.sessions@[i as int];
            if s[i as int].shell_session is Some {
                let sh = s[i as int].shell_session.unwrap();
                let (sh2, w) = choose|sh2: AnyShell, w: Result<(), SshError>|
                    #[trigger] sh.wrote(sh2, bytes@, w) && (w matches Err(e) ==> written == Err::<
                        Vec<Vec<u8>>,
                        SshError,
                    >(e) && after.shell_session == Some(sh2)) && (w is Ok ==> drained_from(
                        sh2,
                        after.shell_session,
                        written,
                    ));
                lemma_accepting_shell_polls(sh, sh2, bytes@, PtySize { columns: 0, rows: 0, pixel_width: 0, pixel_height: 0 }, w);
                if w is Ok && written is Ok {
                    let chunks = written.unwrap();
                    assert(chunk_views(chunks@) == sh2.pending().take(leading_chunks(sh2.pending()) as int));
                }
            }
        }
        match written {
            Ok(chunks) => {
                assert(terminal_of(self.sessions@[i as int]) == feed_chunks(
                    s[i as int].terminal_parser@,
                    s[i as int].terminal_grid@,
                    chunk_views(chunks@),
                ));
            },
            Err(e) => {
                let message = e.describe();
                assert(message@ == ssh_error_text(e));
                return Err(AppError::from_error(message));
            },
        }
        let mut status = String::new();
        push_str(&mut status, "Sent ");
        push_decimal(&mut status, bytes.len() as u64);
        push_str(&mut status, " bytes through the runtime terminal pipeline.");
        assert(Seq::<char>::empty() + "Sent "@ =~= "Sent "@);
        self.status_text = status;
        Ok(self.projection())
    }

    /// Resizes the active session's terminal: the core must know the
    /// session, then the shell's PTY takes the new size.
    pub fn resize_active_terminal(&mut self, columns: u16, rows: u16) -> (r: AppResult<AppProjection>)
        requires
            old(self).wf(),
        ensures
            final(self).wf(),
            old(self).active_error() matches Some(m) ==> (r matches Err(e) && e.message@ == m) && unchanged(
                *old(self),
                *final(self),
            ),
            old(self).active_error() is None ==> {
                let k = old(self).spec_active().unwrap();
                let before = old(self).spec_sessions()[k];
                let after = final(self).spec_sessions()[k];
                if old(self).spec_registry().session_index(k) is None {
                    (r matches Err(e) && e.message@ == unknown_session_message(k)) && unchanged(
                        *old(self),
                        *final(self),
                    )
                } else {
                    &&& changed_only(*old(self), *final(self), k)
                    &&& final(self).spec_registry() == old(self).spec_registry()
                    &&& after.state == before.state
                    &&& (before.shell_session is None ==> r is Ok && terminal_of(after) == terminal_of(before)
                        && after.shell_session is None)
                    &&& (before.shell_session matches Some(sh) ==> exists|sh2: AnyShell, w: Result<(), SshError>|
                        #[trigger] sh.resized(sh2, (PtySize { columns, rows, pixel_width: 0, pixel_height: 0 }), w)
                            && shell_took(sh2, w, before, after, r))
                    &&& match r {
                        Ok(p) => final(self).shows(p) && final(self).spec_status() == resized_status(columns, rows),
                        Err(e) => final(self).spec_status() == old(self).spec_status(),
                    }
                }
            },
    {
        let i = match self.active_position() {
            Ok(i) => i,
            Err(e) => {
                return Err(e);
            },
        };
        let session_id = self.sessions[i].session_id().clone();
        let sent = self.dispatcher.dispatch(SessionCommand::ResizeTerminal { session_id, columns, rows });
        match sent {
            Ok(_) => {},
            Err(e) => {
                return Err(AppError::from_error(e.message().to_owned()));
            },
        }
        let ghost s = self.sessions@;
        let resized = self.sessions[i].resize_shell_pty(columns, rows);
        proof {
            Self::lemma_runtime_replaced(s, self.sessions@, i as int);
            let after = self.sessions@[i as int];
            let size = PtySize { columns, rows, pixel_width: 0, pixel_height: 0 };
            if s[i as int].shell_session is Some {
                let sh = s[i as int].shell_session.unwrap();
                let (sh2, w) = choose|sh2: AnyShell, w: Result<(), SshError>|
                    #[trigger] sh.resized(sh2, size, w) && (w matches Err(e) ==> resized == Err::<
                        Vec<Vec<u8>>,
                        SshError,
                    >(e) && after.shell_session == Some(sh2)) && (w is Ok ==> drained_from(
                        sh2,
                        after.shell_session,
                        resized,
                    ));
                lemma_accepting_shell_polls(sh, sh2, Seq::empty(), size, w);
                if w is Ok && resized is Ok {
                    let chunks = resized.unwrap();
                    assert(chunk_views(chunks@) == sh2.pending().take(leading_chunks(sh2.pending()) as int));
                }
            }
        }
        match resized {
            Ok(chunks) => {
                assert(terminal_of(self.sessions@[i as int]) == feed_chunks(
                    s[i as int].terminal_parser@,
                    s[i as int].terminal_grid@,
                    chunk_views(chunks@),
                ));
            },
            Err(e) => {
                let message = e.describe();
                assert(message@ == ssh_error_text(e));
                return Err(AppError::from_error(message));
            },
        }
        let mut status = String::new();
        push_str(&mut status, "Resized runtime terminal to ");
        push_decimal(&mut status, columns as u64);
        push_str(&mut status, "x");
        push_decimal(&mut status, rows as u64);
        push_str(&mut status, ".");
        assert(Seq::<char>::empty() + "Resized runtime terminal to "@ =~= "Resized runtime terminal to "@);
        self.status_text = status;
        Ok(self.projection())
    }
}

impl AppRuntime {
    /// Disconnects the active session's shell, then records the session as
    /// disconnected with the core.
    pub fn disconnect_active_session(&mut self) -> (r: AppResult<AppProjection>)
        requires
            old(self).wf(),
        ensures
            final(self).wf(),
            old(self).active_error() matches Some(m) ==> (r matches Err(e) && e.message@ == m) && unchanged(
                *old(self),
                *final(self),
            ),
            old(self).active_error() is None ==> {
                let k = old(self).spec_active().unwrap();
                let before = old(self).spec_sessions()[k];
                let after = final(self).spec_sessions()[k];
                let known = old(self).spec_registry().session_index(k) is Some;
                &&& changed_only(*old(self), *final(self), k)
                &&& (before.shell_session is None ==> after.shell_session is None)
                &&& (before.shell_session matches Some(sh) ==> (after.shell_session matches Some(sh2)
                    && sh.closed(sh2, Ok(()))))
                &&& (r is Ok <==> known)
                &&& match r {
                    Ok(p) => final(self).shows(p) && final(self).spec_status()
                        == "Disconnected the active runtime session."@ && after.state
                        == SessionState::Disconnected && terminal_of(after) == with_line(
                        terminal_of(before),
                        "Core state updated: "@ + state_name(SessionState::Disconnected),
                    ),
                    Err(e) => final(self).spec_status() == old(self).spec_status() && e.message@
                        == unknown_session_message(k) && after.state == before.state && terminal_of(after)
                        == terminal_of(before),
                }
            },
    {
        let i = match self.active_position() {
            Ok(i) => i,
            Err(e) => {
                return Err(e);
            },
        };
        let session_id = self.sessions[i].session_id().clone();
        let ghost s0 = self.sessions@;
        assert(s0[i as int].wf());
        let closed = self.sessions[i].disconnect_shell();
        match closed {
            Ok(()) => {},
            Err(e) => {
                assert(self.sessions@ =~= s0.update(i as int, self.sessions@[i as int]));
                assert(self.sessions@[i as int].wf());
                proof {
                    Self::lemma_runtime_replaced(s0, self.sessions@, i as int);
                }
                let message = e.describe();
                assert(message@ == ssh_error_text(e));
                return Err(AppError::from_error(message));
            },
        }
        assert(self.sessions@[i as int].wf());
        let recorded = record_state(
            &mut self.dispatcher,
            &session_id,
            &mut self.sessions[i],
            SessionState::Disconnected,
        );
        assert(self.sessions@ =~= s0.update(i as int, self.sessions@[i as int]));
        proof {
            Self::lemma_runtime_replaced(s0, self.sessions@, i as int);
        }
        match recorded {
            Ok(()) => {},
            Err(e) => {
                return Err(AppError::from_error(e.message().to_owned()));
            },
        }
        self.status_text = "Disconnected the active runtime session.".to_owned();
        Ok(self.projection())
    }

    /// Reopens the active session's shell on the selected transport: the
    /// core sees it connecting, then connected when the shell is live.
    pub fn reconnect_active_session(&mut self) -> (r: AppResult<AppProjection>)
        requires
            old(self).wf(),
        ensures
            final(self).wf(),
            old(self).active_error() matches Some(m) ==> (r matches Err(e) && e.message@ == m) && unchanged(
                *old(self),
                *final(self),
            ),
            old(self).active_error() is None ==> {
                let k = old(self).spec_active().unwrap();
                let before = old(self).spec_sessions()[k];
                let after = final(self).spec_sessions()[k];
                &&& changed_only(*old(self), *final(self), k)
                &&& if old(self).spec_registry().session_index(k) is None {
                    (r matches Err(e) && e.message@ == unknown_session_message(k)) && final(self).spec_status()
                        == old(self).spec_status() && final(self).spec_registry() == old(self).spec_registry()
                } else if config_problem(before.ssh_config) is Some {
                    &&& r matches Err(e) && e.message@ == ssh_kind_name(SshErrorKind::Configuration) + ": "@
                        + config_problem(before.ssh_config).unwrap()
                    &&& after.state == SessionState::Connecting
                    &&& final(self).spec_status() == old(self).spec_status()
                    &&& final(self).spec_registry() == spec_set_state(
                        old(self).spec_registry(),
                        k,
                        SessionState::Connecting,
                    )
                } else {
                    &&& r matches Ok(p) && final(self).shows(p)
                    &&& final(self).spec_registry() == spec_set_state(
                        spec_set_state(old(self).spec_registry(), k, SessionState::Connecting),
                        k,
                        after.state,
                    )
                    &&& after.state == activated_state(old(self).spec_backend(), before.ssh_config)
                    &&& after.shell_session is Some
                    &&& final(self).spec_status() == reconnect_status(old(self).spec_backend())
                    &&& terminal_of(after) == reconnect_terminal(
                        terminal_of(before),
                        old(self).spec_backend(),
                        before.ssh_config,
                    )
                }
            },
    {
        let i = match self.active_position() {
            Ok(i) => i,
            Err(e) => {
                return Err(e);
            },
        };
        let session_id = self.sessions[i].session_id().clone();
        let ghost s0 = self.sessions@;
        let ghost t0 = terminal_of(s0[i as int]);
        self.sessions[i].append_status_line("Reconnecting runtime shell session.");
        let connecting = record_state(
            &mut self.dispatcher,
            &session_id,
            &mut self.sessions[i],
            SessionState::Connecting,
        );
        assert(self.sessions@ =~= s0.update(i as int, self.sessions@[i as int]));
        proof {
            Self::lemma_runtime_replaced(s0, self.sessions@, i as int);
        }
        match connecting {
            Ok(()) => {},
            Err(e) => {
                return Err(AppError::from_error(e.message().to_owned()));
            },
        }
        let ghost config = self.sessions@[i as int].ssh_config;
        let ghost t2 = with_line(
            with_line(t0, "Reconnecting runtime shell session."@),
            "Core state updated: "@ + state_name(SessionState::Connecting),
        );
        assert(terminal_of(self.sessions@[i as int]) == t2);
        let opened = self.transport_backend.open_shell(&self.sessions[i].ssh_config);
        let shell = match opened {
            Ok(shell) => shell,
            Err(e) => {
                let message = e.describe();
                assert(e.kind == SshErrorKind::Configuration && e.message@ == config_problem(config).unwrap());
                return Err(AppError::from_error(message));
            },
        };
        proof {
            if shell is Real {
                lemma_fresh_real_shell_not_connected(config, shell->Real_0);
                lemma_fresh_real_shell_greeting(config, shell->Real_0);
            }
            assert(shell.pending() == opened_output(self.transport_backend, config));
        }
        let ghost q = shell.pending();
        let connected = shell.is_connected();
        self.sessions[i].attach_shell_session(shell);
        let polled = self.sessions[i].poll_shell_output();
        let ghost t3 = feed_chunks(t2.0, t2.1, q.take(leading_chunks(q) as int));
        assert(self.sessions@ =~= s0.update(i as int, self.sessions@[i as int]));
        proof {
            Self::lemma_runtime_replaced(s0, self.sessions@, i as int);
        }
        match polled {
            Ok(_) => {},
            Err(e) => {
                let message = e.describe();
                return Err(AppError::from_error(message));
            },
        }
        assert(terminal_of(self.sessions@[i as int]) == t3);
        proof {
            law_set_state_keeps_sessions(old(self).spec_registry(), session_id@, SessionState::Connecting, session_id@);
        }
        if connected {
            let _ = record_state(&mut self.dispatcher, &session_id, &mut self.sessions[i], SessionState::Connected);
        } else {
            self.sessions[i].append_status_line(
                "Shell runtime reopened a staged backend scaffold. Connection is not live yet.",
            );
            proof {
                lemma_set_state_twice(old(self).spec_registry(), session_id@, SessionState::Connecting);
            }
        }
        proof {
            reveal(reconnect_terminal);
            assert(connected <==> self.transport_backend is Fake);
            assert(terminal_of(self.sessions@[i as int]) == reconnect_terminal(t0, self.transport_backend, config));
        }
        assert(self.sessions@ =~= s0.update(i as int, self.sessions@[i as int]));
        proof {
            Self::lemma_runtime_replaced(s0, self.sessions@, i as int);
        }
        let mut status = String::new();
        if connected {
            push_str(&mut status, "Reconnected");
        } else {
            push_str(&mut status, "Reopened");
        }
        push_str(&mut status, " the active runtime session through the `");
        push_str(&mut status, self.transport_backend.label());
        push_str(&mut status, "` shell backend.");
        assert(Seq::<char>::empty() + "Reconnected"@ =~= "Reconnected"@);
        assert(Seq::<char>::empty() + "Reopened"@ =~= "Reopened"@);
        self.status_text = status;
        Ok(self.projection())
    }
}

/// The id of a saved profile for `host`: `saved-` and the host reduced to
/// lower-case ASCII letters and digits (other characters become `-`, and
/// leading and trailing `-` are dropped; `session` if nothing is left).
pub open spec fn stem_char(c: char) -> char {
    if 'a' <= c && c <= 'z' || '0' <= c && c <= '9' {
        c
    } else if 'A' <= c && c <= 'Z' {
        ((c as u32) + 32) as char
    } else {
        '-'
    }
}

pub open spec fn trim_dashes(s: Seq<char>) -> Seq<char>
    decreases s.len(),
{
    if s.len() > 0 && s[0] == '-' {
        trim_dashes(s.drop_first())
    } else if s.len() > 0 && s.last() == '-' {
        trim_dashes(s.drop_last())
    } else {
        s
    }
}

pub open spec fn profile_base(host: Seq<char>) -> Seq<char> {
    let stem = trim_dashes(host.map_values(|c: char| stem_char(c)));
    "saved-"@ + if stem.len() == 0 {
        "session"@
    } else {
        stem
    }
}

/// The `k`-th alternative id.
pub open spec fn profile_candidate(base: Seq<char>, k: nat) -> Seq<char> {
    base + "-"@ + decimal(k)
}

pub open spec fn profile_ids(s: Seq<SessionProfile>) -> Seq<Seq<char>> {
    s.map_values(|p: SessionProfile| p.id@)
}

/// The id a newly saved profile gets: the base if no saved session uses it,
/// else the first unused alternative from 2 on.
pub open spec fn fresh_profile_id(ids: Seq<Seq<char>>, host: Seq<char>, id: Seq<char>) -> bool {
    let base = profile_base(host);
    if !ids.contains(base) {
        id == base
    } else {
        exists|k: nat|
            2 <= k && id == profile_candidate(base, k) && !ids.contains(id) && forall|j: nat|
                2 <= j < k ==> ids.contains(#[trigger] profile_candidate(base, j))
    }
}

fn trimmed_dashes(v: &Vec<char>) -> (r: (usize, usize))
    ensures
        r.0 <= r.1 <= v@.len(),
        v@.subrange(r.0 as int, r.1 as int) == trim_dashes(v@),
{
    let mut start: usize = 0;
    let mut end: usize = v.len();
    assert(v@.subrange(0, v@.len() as int) =~= v@);
    while start < end && (v[start] == '-' || v[end - 1] == '-')
        invariant
            start <= end <= v@.len(),
            trim_dashes(v@) == trim_dashes(v@.subrange(start as int, end as int)),
        decreases end - start,
    {
        let ghost cur = v@.subrange(start as int, end as int);
        if v[start] == '-' {
            assert(cur.drop_first() =~= v@.subrange(start + 1, end as int));
            start = start + 1;
        } else {
            assert(cur.drop_last() =~= v@.subrange(start as int, end - 1));
            end = end - 1;
        }
    }
    (start, end)
}

impl AppRuntime {
    fn id_in_use(&self, id: &str) -> (b: bool)
        ensures
            b == profile_ids(self.config_document.sessions@).contains(id@),
    {
        let n = self.config_document.sessions.len();
        let mut i: usize = 0;
        while i < n
            invariant
                i <= n,
                n == self.config_document.sessions@.len(),
                forall|j: int| 0 <= j < i ==> profile_ids(self.config_document.sessions@)[j] != id@,
            decreases n - i,
        {
            if str_eq(self.config_document.sessions[i].id.as_str(), id) {
                assert(profile_ids(self.config_document.sessions@)[i as int] == id@);
                return true;
            }
            i = i + 1;
        }
        false
    }

    /// An id for a new saved profile for `host` (see `fresh_profile_id`).
    fn next_saved_profile_id(&self, host: &str) -> (id: String)
        requires
            self.config_document.sessions@.len() < usize::MAX,
        ensures
            fresh_profile_id(profile_ids(self.config_document.sessions@), host@, id@),
    {
        let ghost ids = profile_ids(self.config_document.sessions@);
        let chars = chars_of(host);
        let mut mapped: Vec<char> = Vec::new();
        let mut i: usize = 0;
        while i < chars.len()
            invariant
                i <= chars@.len(),
                chars@ == host@,
                mapped@ == host@.take(i as int).map_values(|c: char| stem_char(c)),
            decreases chars.len() - i,
        {
            let c = chars[i];
            let m = if ('a' <= c && c <= 'z') || ('0' <= c && c <= '9') {
                c
            } else if 'A' <= c && c <= 'Z' {
                let code: u8 = (c as u32 + 32) as u8;
                code as char
            } else {
                '-'
            };
            mapped.push(m);
            assert(host@.take(i + 1).map_values(|c: char| stem_char(c)) =~= host@.take(i as int).map_values(
                |c: char| stem_char(c),
            ).push(stem_char(c)));
            i = i + 1;
        }
        assert(host@.take(host@.len() as int) =~= host@);
        let (a, b) = trimmed_dashes(&mapped);
        let mut base = String::new();
        push_str(&mut base, "saved-");
        if a == b {
            push_str(&mut base, "session");
        } else {
            let stem = crate::text::slice_chars(&mapped, a, b);
            crate::text::push_all(&mut base, &stem);
        }
        assert(base@ =~= profile_base(host@));
        if !self.id_in_use(base.as_str()) {
            return base;
        }
        let n = self.config_document.sessions.len();
        proof {
            lemma_pigeonhole(ids, base@, 2);
        }
        let mut k: usize = 2;
        loop
            invariant
                2 <= k <= n + 1,
                n == self.config_document.sessions@.len(),
                n < usize::MAX,
                ids == profile_ids(self.config_document.sessions@),
                base@ == profile_base(host@),
                ids.contains(base@),
                forall|j: nat| 2 <= j < k ==> ids.contains(#[trigger] profile_candidate(base@, j)),
            decreases n + 1 - k,
        {
            let mut candidate = base.clone();
            push_str(&mut candidate, "-");
            push_decimal(&mut candidate, k as u64);
            assert(candidate@ == profile_candidate(base@, k as nat));
            if !self.id_in_use(candidate.as_str()) {
                return candidate;
            }
            proof {
                lemma_pigeonhole(ids, base@, (k + 1) as nat);
            }
            k = k + 1;
        }
    }
}

/// The base id and the alternatives below `m`.
pub open spec fn taken_ids(base: Seq<char>, m: nat) -> Set<Seq<char>>
    decreases m,
{
    if m <= 2 {
        set![base]
    } else {
        taken_ids(base, (m - 1) as nat).insert(profile_candidate(base, (m - 1) as nat))
    }
}

proof fn lemma_candidate_distinct(base: Seq<char>, i: nat, j: nat)
    ensures
        profile_candidate(base, i) != base,
        profile_candidate(base, i) == profile_candidate(base, j) ==> i == j,
{
    lemma_decimal_len(i);
    let ci = profile_candidate(base, i);
    let cj = profile_candidate(base, j);
    reveal_strlit("-");
    if ci == cj {
        let start = base.len() + 1;
        assert(ci.subrange(start as int, ci.len() as int) =~= decimal(i));
        assert(cj.subrange(start as int, cj.len() as int) =~= decimal(j));
        lemma_decimal_injective(i, j);
    }
}

proof fn lemma_taken_ids(base: Seq<char>, m: nat)
    requires
        m >= 2,
    ensures
        taken_ids(base, m).finite(),
        taken_ids(base, m).len() == m - 1,
        forall|x: Seq<char>|
            #[trigger] taken_ids(base, m).contains(x) ==> x == base || exists|j: nat|
                2 <= j < m && x == profile_candidate(base, j),
    decreases m,
{
    if m > 2 {
        let prev = (m - 1) as nat;
        lemma_taken_ids(base, prev);
        let c = profile_candidate(base, prev);
        if taken_ids(base, prev).contains(c) {
            lemma_candidate_distinct(base, prev, prev);
            let j = choose|j: nat| 2 <= j < prev && c == profile_candidate(base, j);
            lemma_candidate_distinct(base, prev, j);
        }
    }
}

/// Of the base id and its alternatives below `k`, all in use, each is a
/// different id, so there are at least `k - 1` ids.
proof fn lemma_pigeonhole(ids: Seq<Seq<char>>, base: Seq<char>, k: nat)
    requires
        k >= 2,
        ids.contains(base),
        forall|j: nat| 2 <= j < k ==> ids.contains(#[trigger] profile_candidate(base, j)),
    ensures
        k - 1 <= ids.len(),
{
    lemma_taken_ids(base, k);
    assert(taken_ids(base, k).subset_of(ids.to_set())) by {
        assert forall|x: Seq<char>| #[trigger] taken_ids(base, k).contains(x) implies ids.to_set().contains(x) by {
            if x != base {
                let j = choose|j: nat| 2 <= j < k && x == profile_candidate(base, j);
                assert(ids.contains(profile_candidate(base, j)));
            }
        }
    }
    ids.lemma_cardinality_of_set();
    vstd::set_lib::lemma_len_subset(taken_ids(base, k), ids.to_set());
}

/// A newly saved profile never takes an id a saved session already uses.
pub proof fn law_fresh_id_unused(ids: Seq<Seq<char>>, host: Seq<char>, id: Seq<char>)
    requires
        fresh_profile_id(ids, host, id),
    ensures
        !ids.contains(id),
{
}

/// The staged real transport never reports a session as connected: an
/// activation ends connecting (or failed), never connected.
pub proof fn law_real_backend_never_connected(config: SshConnectionConfig)
    ensures
        activated_state(TransportBackend::Real, config) != SessionState::Connected,
        config_problem(config) is None ==> activated_state(TransportBackend::Real, config)
            == SessionState::Connecting,
        config_problem(config) is None ==> activated_state(TransportBackend::Fake, config)
            == SessionState::Connected,
{
}

/// A profile saved under a fresh id is what looking that id up finds, so
/// opening the saved session reuses the saved profile.
pub proof fn law_saved_profile_is_found(
    before: Seq<SessionProfile>,
    doc: ConfigDocument,
    id: Seq<char>,
    p: SessionProfile,
)
    requires
        !profile_ids(before).contains(id),
        doc.sessions@ == before.push(p),
        p.id@ == id,
    ensures
        find_in_document(doc, id) == Some(p),
{
    let ids = crate::config::schema::session_ids(doc.sessions@);
    lemma_index_in(ids, id);
    assert(ids[before.len() as int] == id);
    match index_in(ids, id) {
        Some(k) => {
            if (k as int) < before.len() {
                assert(profile_ids(before)[k as int] == id);
            }
        },
        None => {},
    }
}

} // verus!
