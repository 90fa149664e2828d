//! Runtime state of one live or pending shell session: its terminal, its
//! shell and its lifecycle state.
use vstd::prelude::*;

use crate::config::quick_connect::{opt_string_view, QuickConnectTarget, QuickConnectTargetView};
use crate::config::schema::{SessionProfile, DEFAULT_SSH_PORT};
use crate::session::session_event::{SessionId, TabId};
use crate::session::session_handle::SessionState;
use crate::ssh::auth::{auth_username, AuthMethod};
use crate::ssh::channel::{after_poll, front_chunk, ShellSession};
use crate::ssh::client::{polls_cleanly, AnyShell, SshConnectionConfig};
use crate::ssh::error::SshError;
use crate::ssh::fake::{chunk_views, closed_channel};
use crate::ssh::pty::PtySize;
use crate::terminal::cell::default_style;
use crate::terminal::grid::{blank_row, GridView, TerminalGrid, DEFAULT_SCROLLBACK_LIMIT};
use crate::terminal::parser::{initial_parser, run, ParserView, TerminalParser};
use crate::text::{decimal, push_decimal, push_str, lossy_text};

verus! {

/// Terminal columns of a session runtime.
pub const RUNTIME_COLUMNS: u16 = 120;

/// Terminal rows of a session runtime.
pub const RUNTIME_ROWS: u16 = 32;

/// Where a runtime session came from.
#[derive(Debug, PartialEq, Eq)]
pub enum SessionSource {
    QuickConnect,
    SavedSession { profile_id: String },
    Draft,
}

pub open spec fn source_name(s: SessionSource) -> Seq<char> {
    match s {
        SessionSource::QuickConnect => "quick-connect"@,
        SessionSource::SavedSession { .. } => "saved"@,
        SessionSource::Draft => "draft"@,
    }
}

pub open spec fn state_name(s: SessionState) -> Seq<char> {
    match s {
        SessionState::Idle => "idle"@,
        SessionState::Connecting => "connecting"@,
        SessionState::Connected => "connected"@,
        SessionState::Disconnected => "disconnected"@,
        SessionState::Failed => "failed"@,
    }
}

/// The lower-case name of a state.
pub fn state_label_of(state: SessionState) -> (s: &'static str)
    ensures
        s@ == state_name(state),
{
    match state {
        SessionState::Idle => "idle",
        SessionState::Connecting => "connecting",
        SessionState::Connected => "connected",
        SessionState::Disconnected => "disconnected",
        SessionState::Failed => "failed",
    }
}

/// A blank runtime terminal.
pub open spec fn blank_terminal() -> GridView {
    GridView {
        columns: RUNTIME_COLUMNS as nat,
        rows: RUNTIME_ROWS as nat,
        cells: blank_row(default_style(), RUNTIME_ROWS as nat * RUNTIME_COLUMNS as nat),
        cursor_column: 0,
        cursor_row: 0,
        scrollback: Seq::empty(),
        scrollback_limit: DEFAULT_SCROLLBACK_LIMIT as nat,
    }
}

/// Chunks of output fed to the parser one after another, each decoded from
/// UTF-8 on its own.
pub open spec fn feed_chunks(p: ParserView, g: GridView, chunks: Seq<Seq<u8>>) -> (ParserView, GridView)
    decreases chunks.len(),
{
    if chunks.len() == 0 {
        (p, g)
    } else {
        let (p1, g1) = feed_chunks(p, g, chunks.drop_last());
        run(p1, g1, lossy_text(chunks.last()))
    }
}

/// How many chunks at the front of a queue are non-empty.
pub open spec fn leading_chunks(q: Seq<Seq<u8>>) -> nat
    decreases q.len(),
{
    if q.len() == 0 || q[0].len() == 0 {
        0
    } else {
        1 + leading_chunks(q.drop_first())
    }
}

/// The queue left after polling until an empty chunk: the leading non-empty
/// chunks and the empty one after them (if any) are gone.
pub open spec fn after_drain(q: Seq<Seq<u8>>) -> Seq<Seq<u8>> {
    let n = leading_chunks(q) as int;
    if n < q.len() {
        q.skip(n + 1)
    } else {
        q.skip(n)
    }
}

/// Runtime state of one session.
#[derive(Debug)]
pub struct SessionRuntime {
    pub session_id: SessionId,
    pub tab_id: TabId,
    pub display_name: String,
    pub source: SessionSource,
    pub ssh_config: SshConnectionConfig,
    pub terminal_parser: TerminalParser,
    pub terminal_grid: TerminalGrid,
    pub shell_session: Option<AnyShell>,
    pub state: SessionState,
}

/// The terminal as the parser and the grid model it.
pub open spec fn terminal_of(r: SessionRuntime) -> (ParserView, GridView) {
    (r.terminal_parser@, r.terminal_grid@)
}

/// `a` and `b` differ at most in their terminal.
pub open spec fn same_but_terminal(a: SessionRuntime, b: SessionRuntime) -> bool {
    &&& a.spec_session_id() == b.spec_session_id()
    &&& a.spec_tab_id() == b.spec_tab_id()
    &&& a.display_name == b.display_name
    &&& a.source == b.source
    &&& a.ssh_config == b.ssh_config
    &&& a.shell_session == b.shell_session
    &&& a.state == b.state
}

/// The display name of a Quick Connect target: user (or `<default>`), host and port.
pub open spec fn quick_connect_name(t: QuickConnectTarget) -> Seq<char> {
    target_name(t@)
}

/// The display name of a parsed target: user (or `<default>`), host and port.
pub open spec fn target_name(t: QuickConnectTargetView) -> Seq<char> {
    (match t.username {
        Some(u) => u,
        None => "<default>"@,
    }) + "@"@ + t.host + ":"@ + decimal(t.port as nat)
}

impl SessionRuntime {
    pub open spec fn spec_session_id(&self) -> Seq<char> {
        self.session_id@
    }

    pub open spec fn spec_tab_id(&self) -> Seq<char> {
        self.tab_id@
    }

    /// The runtime invariant: the terminal grid is well formed.
    pub open spec fn wf(&self) -> bool {
        self.terminal_grid.wf()
    }

    fn with_parts(
        session_id: SessionId,
        tab_id: TabId,
        display_name: String,
        source: SessionSource,
        ssh_config: SshConnectionConfig,
        state: SessionState,
        first_line: &str,
    ) -> (r: SessionRuntime)
        ensures
            r.wf(),
            r.spec_session_id() == session_id@,
            r.spec_tab_id() == tab_id@,
            r.display_name == display_name,
            r.source == source,
            r.ssh_config == ssh_config,
            r.shell_session is None,
            r.state == state,
            terminal_of(r) == run(initial_parser(), blank_terminal(), first_line@ + "\n"@),
    {
        let mut r = SessionRuntime {
            session_id,
            tab_id,
            display_name,
            source,
            ssh_config,
            terminal_parser: TerminalParser::new(),
            terminal_grid: TerminalGrid::new(RUNTIME_COLUMNS, RUNTIME_ROWS),
            shell_session: None,
            state,
        };
        assert(r.terminal_grid@.scrollback =~= Seq::<Seq<crate::terminal::cell::CellView>>::empty());
        assert(r.terminal_grid@ == blank_terminal());
        r.append_status_line(first_line);
        r
    }

    /// A runtime for a Quick Connect target, connecting as its user (`user`
    /// when it names none) through the agent.
    pub fn from_quick_connect(target: QuickConnectTarget, ordinal: usize) -> (r: SessionRuntime)
        ensures
            r.wf(),
            r.spec_session_id() == "quick-connect-"@ + decimal(ordinal as nat),
            r.spec_tab_id() == "tab-quick-connect-"@ + decimal(ordinal as nat),
            r.display_name@ == quick_connect_name(target),
            r.source == SessionSource::QuickConnect,
            r.ssh_config.host@ == target.host@,
            r.ssh_config.port == target.port,
            r.ssh_config.auth matches AuthMethod::Agent { username } && username@ == match opt_string_view(
                target.username,
            ) {
                Some(u) => u,
                None => "user"@,
            },
            r.shell_session is None,
            r.state == SessionState::Connecting,
            terminal_of(r) == run(
                initial_parser(),
                blank_terminal(),
                "Quick Connect accepted. Preparing runtime session."@ + "\n"@,
            ),
    {
        let username = match &target.username {
            Some(u) => u.clone(),
            None => "user".to_owned(),
        };
        let mut display_name = String::new();
        match &target.username {
            Some(u) => push_str(&mut display_name, u.as_str()),
            None => push_str(&mut display_name, "<default>"),
        }
        push_str(&mut display_name, "@");
        push_str(&mut display_name, target.host.as_str());
        push_str(&mut display_name, ":");
        push_decimal(&mut display_name, target.port as u64);
        let ssh_config = SshConnectionConfig::new(
            target.host.as_str(),
            target.port,
            AuthMethod::Agent { username },
        );
        let mut sid = String::new();
        push_str(&mut sid, "quick-connect-");
        push_decimal(&mut sid, ordinal as u64);
        let mut tid = String::new();
        push_str(&mut tid, "tab-quick-connect-");
        push_decimal(&mut tid, ordinal as u64);
        proof {
            assert(Seq::<char>::empty() + "<default>"@ =~= "<default>"@);
            if target.username is Some {
                assert(Seq::<char>::empty() + target.username.unwrap()@ =~= target.username.unwrap()@);
            }
            assert(Seq::<char>::empty() + "quick-connect-"@ =~= "quick-connect-"@);
            assert(Seq::<char>::empty() + "tab-quick-connect-"@ =~= "tab-quick-connect-"@);
        }
        Self::with_parts(
            SessionId::from_string(sid),
            TabId::from_string(tid),
            display_name,
            SessionSource::QuickConnect,
            ssh_config,
            SessionState::Connecting,
            "Quick Connect accepted. Preparing runtime session.",
        )
    }

    /// A runtime for a saved profile, keeping its id and name.
    pub fn from_profile(profile: &SessionProfile, ordinal: usize) -> (r: SessionRuntime)
        ensures
            r.wf(),
            r.spec_session_id() == profile.id@,
            r.spec_tab_id() == "tab-saved-"@ + decimal(ordinal as nat),
            r.display_name == profile.name,
            r.source matches SessionSource::SavedSession { profile_id } && profile_id == profile.id,
            r.ssh_config.host@ == profile.host@,
            r.ssh_config.port == profile.port,
            r.ssh_config.auth matches AuthMethod::Agent { username } && username@ == match opt_string_view(
                profile.username,
            ) {
                Some(u) => u,
                None => "user"@,
            },
            r.shell_session is None,
            r.state == SessionState::Idle,
            terminal_of(r) == run(
                initial_parser(),
                blank_terminal(),
                "Saved session loaded into runtime inventory."@ + "\n"@,
            ),
    {
        let username = match &profile.username {
            Some(u) => u.clone(),
            None => "user".to_owned(),
        };
        let ssh_config = SshConnectionConfig::new(
            profile.host.as_str(),
            profile.port,
            AuthMethod::Agent { username },
        );
        let mut tid = String::new();
        push_str(&mut tid, "tab-saved-");
        push_decimal(&mut tid, ordinal as u64);
        assert(Seq::<char>::empty() + "tab-saved-"@ =~= "tab-saved-"@);
        Self::with_parts(
            SessionId::new(profile.id.as_str()),
            TabId::from_string(tid),
            profile.name.clone(),
            SessionSource::SavedSession { profile_id: profile.id.clone() },
            ssh_config,
            SessionState::Idle,
            "Saved session loaded into runtime inventory.",
        )
    }

    /// A draft runtime waiting for connection details.
    pub fn draft(ordinal: usize) -> (r: SessionRuntime)
        ensures
            r.wf(),
            r.spec_session_id() == "draft-"@ + decimal(ordinal as nat),
            r.spec_tab_id() == "tab-draft-"@ + decimal(ordinal as nat),
            r.display_name@ == "New Session"@,
            r.source == SessionSource::Draft,
            r.ssh_config.host@ == "example.com"@,
            r.ssh_config.port == DEFAULT_SSH_PORT,
            r.ssh_config.auth matches AuthMethod::Agent { username } && username@ == "user"@,
            r.shell_session is None,
            r.state == SessionState::Idle,
            terminal_of(r) == run(
                initial_parser(),
                blank_terminal(),
                "Draft session created. Waiting for connection details."@ + "\n"@,
            ),
    {
        let mut sid = String::new();
        push_str(&mut sid, "draft-");
        push_decimal(&mut sid, ordinal as u64);
        let mut tid = String::new();
        push_str(&mut tid, "tab-draft-");
        push_decimal(&mut tid, ordinal as u64);
        assert(Seq::<char>::empty() + "draft-"@ =~= "draft-"@);
        assert(Seq::<char>::empty() + "tab-draft-"@ =~= "tab-draft-"@);
        Self::with_parts(
            SessionId::from_string(sid),
            TabId::from_string(tid),
            "New Session".to_owned(),
            SessionSource::Draft,
            SshConnectionConfig::new(
                "example.com",
                DEFAULT_SSH_PORT,
                AuthMethod::Agent { username: "user".to_owned() },
            ),
            SessionState::Idle,
            "Draft session created. Waiting for connection details.",
        )
    }

    /// The session id.
    pub fn session_id(&self) -> (id: &SessionId)
        ensures
            id@ == self.spec_session_id(),
    {
        &self.session_id
    }

    /// The tab id.
    pub fn tab_id(&self) -> (id: &TabId)
        ensures
            id@ == self.spec_tab_id(),
    {
        &self.tab_id
    }

    /// `host:port` of the connection.
    pub fn host_label(&self) -> (s: String)
        ensures
            s@ == self.ssh_config.host@ + ":"@ + decimal(self.ssh_config.port as nat),
    {
        let mut s = String::new();
        push_str(&mut s, self.ssh_config.host.as_str());
        push_str(&mut s, ":");
        push_decimal(&mut s, self.ssh_config.port as u64);
        s
    }

    /// The connection's user.
    pub fn username_label(&self) -> (s: &str)
        ensures
            s@ == auth_username(self.ssh_config.auth),
    {
        self.ssh_config.username()
    }

    /// The state's lower-case name.
    pub fn state_label(&self) -> (s: &'static str)
        ensures
            s@ == state_name(self.state),
    {
        state_label_of(self.state)
    }

    /// Records a new state.
    pub fn set_state(&mut self, state: SessionState)
        ensures
            final(self).state == state,
            final(self).spec_session_id() == old(self).spec_session_id(),
            final(self).spec_tab_id() == old(self).spec_tab_id(),
            final(self).display_name == old(self).display_name,
            final(self).source == old(self).source,
            final(self).ssh_config == old(self).ssh_config,
            final(self).shell_session == old(self).shell_session,
            terminal_of(*final(self)) == terminal_of(*old(self)),
            final(self).terminal_grid == old(self).terminal_grid,
    {
        self.state = state;
    }

    /// Prints a line (the message and a newline) on the session's terminal.
    pub fn append_status_line(&mut self, message: &str)
        requires
            old(self).wf(),
        ensures
            final(self).wf(),
            same_but_terminal(*final(self), *old(self)),
            terminal_of(*final(self)) == run(
                old(self).terminal_parser@,
                old(self).terminal_grid@,
                message@ + "\n"@,
            ),
    {
        let mut line = String::new();
        push_str(&mut line, message);
        push_str(&mut line, "\n");
        assert(line@ =~= message@ + "\n"@);
        self.terminal_parser.advance_str(&mut self.terminal_grid, line.as_str());
    }

    /// Feeds shell output to the terminal.
    fn feed_output(&mut self, bytes: &Vec<u8>)
        requires
            old(self).wf(),
        ensures
            final(self).wf(),
            same_but_terminal(*final(self), *old(self)),
            terminal_of(*final(self)) == run(
                old(self).terminal_parser@,
                old(self).terminal_grid@,
                lossy_text(bytes@),
            ),
    {
        self.terminal_parser.advance(&mut self.terminal_grid, bytes.as_slice());
    }

    /// Attaches a shell.
    pub fn attach_shell_session(&mut self, shell_session: AnyShell)
        ensures
            final(self).shell_session == Some(shell_session),
            final(self).spec_session_id() == old(self).spec_session_id(),
            final(self).spec_tab_id() == old(self).spec_tab_id(),
            final(self).display_name == old(self).display_name,
            final(self).source == old(self).source,
            final(self).ssh_config == old(self).ssh_config,
            final(self).state == old(self).state,
            terminal_of(*final(self)) == terminal_of(*old(self)),
            final(self).terminal_grid == old(self).terminal_grid,
    {
        self.shell_session = Some(shell_session);
    }
}


proof fn lemma_leading(q: Seq<Seq<u8>>)
    ensures
        leading_chunks(q) <= q.len(),
        forall|j: int| 0 <= j < leading_chunks(q) ==> #[trigger] q[j].len() > 0,
        leading_chunks(q) < q.len() ==> q[leading_chunks(q) as int].len() == 0,
    decreases q.len(),
{
    if q.len() > 0 && q[0].len() > 0 {
        lemma_leading(q.drop_first());
        assert forall|j: int| 0 <= j < leading_chunks(q) implies #[trigger] q[j].len() > 0 by {
            if j > 0 {
                assert(q[j] == q.drop_first()[j - 1]);
            }
        }
        if leading_chunks(q) < q.len() {
            assert(q[leading_chunks(q) as int] == q.drop_first()[leading_chunks(q.drop_first()) as int]);
        }
    }
}

/// The lines of the visible screen.
pub open spec fn screen_lines(g: GridView) -> Seq<Seq<char>> {
    Seq::new(g.rows, |r: int| g.line_text(r as nat))
}

/// Lines joined with newlines.
pub open spec fn join_lines(lines: Seq<Seq<char>>) -> Seq<char>
    decreases lines.len(),
{
    if lines.len() == 0 {
        Seq::empty()
    } else if lines.len() == 1 {
        lines[0]
    } else {
        join_lines(lines.drop_last()) + "\n"@ + lines.last()
    }
}

/// The visible text: empty when every line is, else the lines joined.
pub open spec fn visible_text_of(g: GridView) -> Seq<char> {
    if forall|r: int| 0 <= r < g.rows ==> #[trigger] screen_lines(g)[r].len() == 0 {
        Seq::empty()
    } else {
        join_lines(screen_lines(g))
    }
}

/// The sidebar line of a runtime: name, state and source.
pub open spec fn sidebar_text(r: SessionRuntime) -> Seq<char> {
    r.display_name@ + " ["@ + state_name(r.state) + "] "@ + source_name(r.source)
}

/// `r` and `after` are what polling shell `sh` until it runs dry gives: on a
/// shell that polls cleanly the leading non-empty chunks of its queue, and
/// the same channel left with the rest of the queue; otherwise the polling
/// error, with the shell untouched.
pub open spec fn drained_from(sh: AnyShell, after: Option<AnyShell>, r: Result<Vec<Vec<u8>>, SshError>) -> bool {
    if polls_cleanly(sh) {
        &&& (r matches Ok(chunks) && chunk_views(chunks@) == sh.pending().take(
            leading_chunks(sh.pending()) as int,
        ))
        &&& (after matches Some(sh2) && sh.same_channel(sh2) && sh2.pending() == after_drain(sh.pending()))
    } else {
        &&& (r matches Err(e) && e@ == closed_channel("cannot poll output from disconnected shell session"@))
        &&& after == Some(sh)
    }
}

/// Polling a shell dry twice with no output arriving in between: where no
/// empty chunk stood in its queue, the first drain takes every waiting chunk
/// and the second finds nothing, leaving the same channel with an empty queue.
pub proof fn law_second_drain_is_empty(
    sh: AnyShell,
    mid: Option<AnyShell>,
    r1: Result<Vec<Vec<u8>>, SshError>,
    end: Option<AnyShell>,
    r2: Result<Vec<Vec<u8>>, SshError>,
)
    requires
        polls_cleanly(sh),
        forall|i: int| 0 <= i < sh.pending().len() ==> #[trigger] sh.pending()[i].len() > 0,
        drained_from(sh, mid, r1),
        drained_from(mid.unwrap(), end, r2),
    ensures
        r1 matches Ok(c) && chunk_views(c@) == sh.pending(),
        r2 matches Ok(c) && c@.len() == 0,
        end matches Some(e) && e.pending().len() == 0 && sh.same_channel(e),
{
    let q = sh.pending();
    lemma_leading(q);
    if leading_chunks(q) < q.len() {
        assert(q[leading_chunks(q) as int].len() > 0);
    }
    assert(q.take(q.len() as int) =~= q);
    let m = mid.unwrap();
    assert(m.pending() =~= Seq::<Seq<u8>>::empty());
    assert(polls_cleanly(m));
    assert(m.pending().take(0) =~= Seq::<Seq<u8>>::empty());
}

impl SessionRuntime {
    /// Polls the shell until it has no more output, feeding each chunk to the
    /// terminal, and returns the chunks. Without a shell nothing happens.
    pub fn poll_shell_output(&mut self) -> (r: Result<Vec<Vec<u8>>, SshError>)
        requires
            old(self).wf(),
        ensures
            final(self).wf(),
            final(self).state == old(self).state,
            final(self).display_name == old(self).display_name,
            final(self).spec_session_id() == old(self).spec_session_id(),
            final(self).spec_tab_id() == old(self).spec_tab_id(),
            final(self).source == old(self).source,
            final(self).ssh_config == old(self).ssh_config,
            final(self).shell_session is Some == old(self).shell_session is Some,
            old(self).shell_session is None ==> (r matches Ok(c) && c@.len() == 0) && terminal_of(
                *final(self),
            ) == terminal_of(*old(self)),
            old(self).shell_session matches Some(sh) ==> drained_from(sh, final(self).shell_session, r),
            r is Err ==> terminal_of(*final(self)) == terminal_of(*old(self)),
            r matches Ok(chunks) ==> terminal_of(*final(self)) == feed_chunks(
                old(self).terminal_parser@,
                old(self).terminal_grid@,
                chunk_views(chunks@),
            ),
    {
        let mut shell = match self.shell_session.take() {
            Some(sh) => sh,
            None => {
                return Ok(Vec::new());
            },
        };
        let ghost q0 = shell.pending();
        let ghost clean = polls_cleanly(shell);
        let ghost p0 = self.terminal_parser@;
        let ghost g0 = self.terminal_grid@;
        proof {
            lemma_leading(q0);
            assert(q0.skip(0) =~= q0);
        }
        let mut chunks: Vec<Vec<u8>> = Vec::new();
        loop
            invariant_except_break
                self.wf(),
                old(self).shell_session == Some(old(self).shell_session.unwrap()),
                clean == polls_cleanly(old(self).shell_session.unwrap()),
                polls_cleanly(shell) == clean,
                self.shell_session is None,
                self.state == old(self).state,
                self.display_name == old(self).display_name,
                self.spec_session_id() == old(self).spec_session_id(),
                self.spec_tab_id() == old(self).spec_tab_id(),
                self.source == old(self).source,
                self.ssh_config == old(self).ssh_config,
                chunks@.len() <= leading_chunks(q0),
                leading_chunks(q0) <= q0.len(),
                forall|j: int| 0 <= j < leading_chunks(q0) ==> #[trigger] q0[j].len() > 0,
                leading_chunks(q0) < q0.len() ==> q0[leading_chunks(q0) as int].len() == 0,
                shell.pending() == q0.skip(chunks@.len() as int),
                chunk_views(chunks@) == q0.take(chunks@.len() as int),
                terminal_of(*self) == feed_chunks(p0, g0, chunk_views(chunks@)),
                !clean ==> chunks@.len() == 0 && shell == old(self).shell_session.unwrap(),
                clean ==> old(self).shell_session.unwrap().same_channel(shell),
                p0 == old(self).terminal_parser@,
                g0 == old(self).terminal_grid@,
            ensures
                self.wf(),
                self.shell_session is None,
                self.state == old(self).state,
                self.display_name == old(self).display_name,
                self.spec_session_id() == old(self).spec_session_id(),
                self.spec_tab_id() == old(self).spec_tab_id(),
                self.source == old(self).source,
                self.ssh_config == old(self).ssh_config,
                chunks@.len() == leading_chunks(q0),
                shell.pending() == after_drain(q0),
                chunk_views(chunks@) == q0.take(chunks@.len() as int),
                terminal_of(*self) == feed_chunks(p0, g0, chunk_views(chunks@)),
                clean,
                old(self).shell_session.unwrap().same_channel(shell),
            decreases shell.pending().len(),
        {
            let ghost i = chunks@.len() as int;
            let ghost before = shell.pending();
            match shell.poll_output() {
                Err(e) => {
                    proof {
                        if !clean {
                            assert(chunk_views(chunks@) =~= Seq::<Seq<u8>>::empty());
                            assert(feed_chunks(p0, g0, Seq::<Seq<u8>>::empty()) == (p0, g0));
                            assert(terminal_of(*self) == terminal_of(*old(self)));
                            assert(shell == old(self).shell_session.unwrap());
                            assert(e@ == closed_channel("cannot poll output from disconnected shell session"@));
                        }
                    }
                    self.shell_session = Some(shell);
                    return Err(e);
                },
                Ok(bytes) => {
                    if bytes.len() == 0 {
                        proof {
                            if i < q0.len() {
                                assert(before[0] == q0[i]);
                                if i < leading_chunks(q0) {
                                    assert(q0[i].len() > 0);
                                }
                                assert(shell.pending() =~= q0.skip(i + 1));
                            } else {
                                assert(shell.pending() =~= q0.skip(i));
                            }
                        }
                        break;
                    }
                    proof {
                        assert(before.len() > 0);
                        assert(bytes@ == q0[i]);
                        if leading_chunks(q0) == i {
                            assert(q0[i].len() == 0);
                        }
                        assert(shell.pending() =~= q0.skip(i + 1));
                    }
                    self.feed_output(&bytes);
                    let ghost cv = chunk_views(chunks@);
                    chunks.push(bytes);
                    proof {
                        assert(chunk_views(chunks@) =~= cv.push(q0[i]));
                        assert(chunk_views(chunks@) =~= q0.take(i + 1));
                        assert(chunk_views(chunks@).drop_last() =~= cv);
                    }
                },
            }
        }
        self.shell_session = Some(shell);
        Ok(chunks)
    }

    /// Sends input through the shell and drains its output; without a shell
    /// nothing happens.
    pub fn write_terminal_input(&mut self, bytes: &[u8]) -> (r: Result<Vec<Vec<u8>>, SshError>)
        requires
            old(self).wf(),
        ensures
            final(self).wf(),
            final(self).state == old(self).state,
            final(self).display_name == old(self).display_name,
            final(self).spec_session_id() == old(self).spec_session_id(),
            final(self).spec_tab_id() == old(self).spec_tab_id(),
            final(self).source == old(self).source,
            final(self).ssh_config == old(self).ssh_config,
            old(self).shell_session is None ==> final(self).shell_session is None,
            r is Err ==> terminal_of(*final(self)) == terminal_of(*old(self)),
            old(self).shell_session is None ==> (r matches Ok(c) && c@.len() == 0) && terminal_of(
                *final(self),
            ) == terminal_of(*old(self)),
            r matches Ok(chunks) ==> terminal_of(*final(self)) == feed_chunks(
                old(self).terminal_parser@,
                old(self).terminal_grid@,
                chunk_views(chunks@),
            ),
            old(self).shell_session matches Some(sh) ==> exists|sh2: AnyShell, w: Result<(), SshError>|
                #[trigger] sh.wrote(sh2, bytes@, w) && (w matches Err(e) ==> r == Err::<Vec<Vec<u8>>, SshError>(e)
                    && final(self).shell_session == Some(sh2)) && (w is Ok ==> drained_from(
                    sh2,
                    final(self).shell_session,
                    r,
                )),
    {
        match &mut self.shell_session {
            Some(shell) => {
                match shell.write_input(bytes) {
                    Ok(()) => {},
                    Err(e) => {
                        return Err(e);
                    },
                }
            },
            None => {
                return Ok(Vec::new());
            },
        }
        self.poll_shell_output()
    }

    /// Resizes the shell's PTY and drains its output; without a shell nothing
    /// happens.
    pub fn resize_shell_pty(&mut self, columns: u16, rows: u16) -> (r: Result<Vec<Vec<u8>>, SshError>)
        requires
            old(self).wf(),
        ensures
            final(self).wf(),
            final(self).state == old(self).state,
            final(self).display_name == old(self).display_name,
            final(self).spec_session_id() == old(self).spec_session_id(),
            final(self).spec_tab_id() == old(self).spec_tab_id(),
            final(self).source == old(self).source,
            final(self).ssh_config == old(self).ssh_config,
            old(self).shell_session is None ==> final(self).shell_session is None,
            r is Err ==> terminal_of(*final(self)) == terminal_of(*old(self)),
            old(self).shell_session is None ==> (r matches Ok(c) && c@.len() == 0) && terminal_of(
                *final(self),
            ) == terminal_of(*old(self)),
            r matches Ok(chunks) ==> terminal_of(*final(self)) == feed_chunks(
                old(self).terminal_parser@,
                old(self).terminal_grid@,
                chunk_views(chunks@),
            ),
            old(self).shell_session matches Some(sh) ==> exists|sh2: AnyShell, w: Result<(), SshError>|
                #[trigger] sh.resized(sh2, (PtySize { columns, rows, pixel_width: 0, pixel_height: 0 }), w) && (
                w matches Err(e) ==> r == Err::<Vec<Vec<u8>>, SshError>(e) && final(self).shell_session
                    == Some(sh2)) && (w is Ok ==> drained_from(sh2, final(self).shell_session, r)),
    {
        let size = PtySize { columns, rows, pixel_width: 0, pixel_height: 0 };
        match &mut self.shell_session {
            Some(shell) => {
                match shell.resize_pty(size) {
                    Ok(()) => {},
                    Err(e) => {
                        return Err(e);
                    },
                }
            },
            None => {
                return Ok(Vec::new());
            },
        }
        self.poll_shell_output()
    }

    /// Disconnects the shell, if there is one.
    pub fn disconnect_shell(&mut self) -> (r: Result<(), SshError>)
        ensures
            final(self).state == old(self).state,
            final(self).display_name == old(self).display_name,
            final(self).spec_session_id() == old(self).spec_session_id(),
            final(self).spec_tab_id() == old(self).spec_tab_id(),
            final(self).source == old(self).source,
            final(self).ssh_config == old(self).ssh_config,
            final(self).terminal_grid == old(self).terminal_grid,
            final(self).terminal_parser == old(self).terminal_parser,
            final(self).shell_session is Some == old(self).shell_session is Some,
            old(self).shell_session is None ==> r is Ok,
            old(self).shell_session matches Some(sh) ==> (final(self).shell_session matches Some(sh2)
                && sh.closed(sh2, r)),
    {
        match &mut self.shell_session {
            Some(shell) => shell.disconnect(),
            None => Ok(()),
        }
    }

    /// The visible terminal text (see `visible_text_of`).
    pub fn visible_text(&self) -> (s: String)
        requires
            self.wf(),
        ensures
            s@ == visible_text_of(self.terminal_grid@),
    {
        let lines = self.terminal_grid.visible_lines();
        let ghost g = self.terminal_grid@;
        let mut all_empty = true;
        let mut i: usize = 0;
        while i < lines.len()
            invariant
                i <= lines@.len(),
                lines@.len() == g.rows,
                forall|r: int| 0 <= r < g.rows ==> #[trigger] lines@[r]@ == screen_lines(g)[r],
                all_empty == forall|r: int| 0 <= r < i ==> #[trigger] screen_lines(g)[r].len() == 0,
            decreases lines.len() - i,
        {
            if !lines[i].as_str().is_empty() {
                proof {
                    assert(lines@[i as int]@ == screen_lines(g)[i as int]);
                }
                all_empty = false;
            }
            i = i + 1;
        }
        assert forall|r: int| 0 <= r < g.rows implies #[trigger] lines@[r]@ == screen_lines(g)[r] by {}
        if all_empty {
            return String::new();
        }
        let mut out = String::new();
        let mut k: usize = 0;
        while k < lines.len()
            invariant
                k <= lines@.len(),
                lines@.len() == g.rows,
                forall|r: int| 0 <= r < g.rows ==> #[trigger] lines@[r]@ == screen_lines(g)[r],
                out@ == join_lines(screen_lines(g).take(k as int)),
            decreases lines.len() - k,
        {
            let ghost before = screen_lines(g).take(k as int);
            assert(screen_lines(g).take(k + 1).drop_last() =~= before);
            if k > 0 {
                push_str(&mut out, "\n");
            }
            push_str(&mut out, lines[k].as_str());
            proof {
                if k == 0 {
                    assert(Seq::<char>::empty() + lines@[0]@ =~= lines@[0]@);
                }
            }
            k = k + 1;
        }
        assert(screen_lines(g).take(lines@.len() as int) =~= screen_lines(g));
        out
    }

    /// The sidebar line (see `sidebar_text`).
    pub fn sidebar_summary(&self) -> (s: String)
        ensures
            s@ == sidebar_text(*self),
    {
        let source = match &self.source {
            SessionSource::QuickConnect => "quick-connect",
            SessionSource::SavedSession { .. } => "saved",
            SessionSource::Draft => "draft",
        };
        let mut s = String::new();
        push_str(&mut s, self.display_name.as_str());
        push_str(&mut s, " [");
        push_str(&mut s, self.state_label());
        push_str(&mut s, "] ");
        push_str(&mut s, source);
        assert(Seq::<char>::empty() + self.display_name@ =~= self.display_name@);
        s
    }

    /// A saved profile for this runtime: the given id, the runtime's name,
    /// host, port and user.
    pub fn to_session_profile(&self, profile_id: &str) -> (p: SessionProfile)
        ensures
            p.id@ == profile_id@,
            p.name@ == self.display_name@,
            p.host@ == self.ssh_config.host@,
            p.port == self.ssh_config.port,
            opt_string_view(p.username) == Some(auth_username(self.ssh_config.auth)),
            p.auth_profile_id is None,
            p.proxy_profile_id is None,
            p.sftp is None,
            p.tunnel is None,
            p.appearance is None,
            p.logging is None,
            p.tags@.len() == 0,
    {
        let mut profile = SessionProfile::new(
            profile_id,
            self.display_name.as_str(),
            self.ssh_config.host.as_str(),
        );
        profile.port = self.ssh_config.port;
        profile.username = Some(self.ssh_config.username().to_owned());
        profile
    }
}

} // verus!
