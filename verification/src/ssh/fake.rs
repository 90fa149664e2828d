//! Deterministic in-memory SSH transport used to exercise the runtime.
use std::collections::VecDeque;
use vstd::prelude::*;
use vstd::utf8::encode_utf8;

use crate::ssh::auth::auth_username;
use crate::ssh::channel::{after_poll, front_chunk, ChannelKind, ShellSession};
use crate::ssh::client::{
    config_problem, configuration_error, ExecOutput, ShellAdapter, SshAdapter,
    SshConnectionConfig,
};
use crate::ssh::error::{SshError, SshErrorKind, SshErrorView, SshResult};
use crate::ssh::proxy::{connected_proxy_state, ProxyState};
use crate::ssh::pty::PtySize;
use crate::text::{
    bytes_of, decimal, decode_lossy, escape_carriage_returns, escape_cr, push_decimal, push_str,
    lossy_text,
};

verus! {

/// The fake transport.
#[derive(Debug, Clone, Copy, Default, PartialEq, Eq, Structural)]
pub struct FakeSshAdapter;

/// A fake command session.
#[derive(Debug, PartialEq, Eq)]
pub struct FakeSshSession {
    pub host: String,
    pub username: String,
    pub proxy_state: ProxyState,
    pub executed_commands: Vec<String>,
    pub connected: bool,
}

impl FakeSshSession {
    /// Whether the session is connected.
    pub closed spec fn live(&self) -> bool {
        self.connected
    }
}

/// A fake interactive shell: it queues a greeting and echoes what it is sent.
#[derive(Debug)]
pub struct FakeShellSession {
    pub host: String,
    pub username: String,
    pub proxy_state: ProxyState,
    pub pty_size: PtySize,
    pub written_inputs: Vec<Vec<u8>>,
    pub connected: bool,
    pub pending_output: VecDeque<Vec<u8>>,
}

pub open spec fn chunk_views(q: Seq<Vec<u8>>) -> Seq<Seq<u8>> {
    q.map_values(|v: Vec<u8>| v@)
}

/// The UTF-8 bytes of `s`.
pub fn text_bytes(s: String) -> (b: Vec<u8>)
    ensures
        b@ == encode_utf8(s@),
{
    bytes_of(s.as_str())
}

/// Greeting line of a fake shell.
pub open spec fn fake_banner(c: SshConnectionConfig) -> Seq<char> {
    "Connecting to "@ + c.host@ + ":"@ + decimal(c.port as nat) + " as "@ + auth_username(c.auth)
        + "\n"@
}

/// Second line of a fake shell: the terminal it pretends to have.
pub open spec fn fake_established(c: SshConnectionConfig) -> Seq<char> {
    "Fake shell established with TERM="@ + c.pty.term@ + " and size="@ + decimal(
        c.pty.size.columns as nat,
    ) + "x"@ + decimal(c.pty.size.rows as nat) + "\n"@
}

/// The fake shell's answer to input.
pub open spec fn fake_echo(bytes: Seq<u8>) -> Seq<char> {
    "fake-shell received input: "@ + escape_cr(lossy_text(bytes)) + "\n$ "@
}

/// The fake shell's answer to a resize.
pub open spec fn fake_resized(size: PtySize) -> Seq<char> {
    "fake-shell resized to "@ + decimal(size.columns as nat) + "x"@ + decimal(size.rows as nat)
        + "\n$ "@
}

/// What a fake command prints.
pub open spec fn fake_exec_stdout(command: Seq<char>) -> Seq<char> {
    "fake ssh executed: "@ + command + "\n"@
}

/// A freshly opened fake shell for `c`.
pub open spec fn fresh_fake_shell(c: SshConnectionConfig, s: FakeShellSession) -> bool {
    &&& s.host@ == c.host@
    &&& s.username@ == auth_username(c.auth)
    &&& s.proxy_state == connected_proxy_state(c.proxy)
    &&& s.pty_size == c.pty.size
    &&& s.written_inputs@.len() == 0
    &&& s.spec_connected()
    &&& s.pending() == seq![
        encode_utf8(fake_banner(c)),
        encode_utf8(fake_established(c)),
        encode_utf8("$ "@),
    ]
}

/// A freshly connected fake command session for `c`.
pub open spec fn fresh_fake_session(c: SshConnectionConfig, s: FakeSshSession) -> bool {
    &&& s.host@ == c.host@
    &&& s.username@ == auth_username(c.auth)
    &&& s.proxy_state == connected_proxy_state(c.proxy)
    &&& s.executed_commands@.len() == 0
    &&& s.live()
}

/// Two fake shells talk to the same host as the same user through the same
/// proxy state.
pub open spec fn same_endpoint(a: FakeShellSession, b: FakeShellSession) -> bool {
    &&& a.host == b.host
    &&& a.username == b.username
    &&& a.proxy_state == b.proxy_state
}

pub open spec fn closed_channel(message: Seq<char>) -> SshErrorView {
    SshErrorView { kind: SshErrorKind::Channel, message }
}

impl SshAdapter for FakeSshAdapter {
    type Session = FakeSshSession;

    open spec fn connect_outcome(&self, config: SshConnectionConfig, r: SshResult<FakeSshSession>) -> bool {
        match config_problem(config) {
            Some(m) => r matches Err(e) && e@ == configuration_error(m),
            None => r matches Ok(s) && fresh_fake_session(config, s),
        }
    }

    open spec fn exec_outcome(
        &self,
        before: FakeSshSession,
        command: Seq<char>,
        after: FakeSshSession,
        r: SshResult<ExecOutput>,
    ) -> bool {
        if before.live() {
            &&& r matches Ok(out) && out.stdout@ == encode_utf8(fake_exec_stdout(command))
                && out.stderr@.len() == 0 && out.exit_status == 0
            &&& after.executed_commands@.len() == before.executed_commands@.len() + 1
            &&& after.executed_commands@.last()@ == command
            &&& after.executed_commands@.drop_last() == before.executed_commands@
            &&& after.host == before.host && after.username == before.username
            &&& after.proxy_state == before.proxy_state && after.live()
        } else {
            &&& r matches Err(e) && e@ == closed_channel(
                "cannot execute command on disconnected session"@,
            )
            &&& after == before
        }
    }

    /// A session on the configured host, user and proxy, after validation.
    fn connect(&self, config: &SshConnectionConfig) -> (r: SshResult<FakeSshSession>) {
        match config.validate() {
            Err(e) => {
                return Err(e);
            },
            Ok(()) => {},
        }
        Ok(FakeSshSession {
            host: config.host.clone(),
            username: config.username().to_owned(),
            proxy_state: config.proxy.connected_state(),
            executed_commands: Vec::new(),
            connected: true,
        })
    }

    /// Records the command and prints a fixed acknowledgement of it.
    fn exec(&self, session: &mut FakeSshSession, command: &str) -> (r: SshResult<ExecOutput>) {
        if !session.connected {
            return Err(
                SshError::new(SshErrorKind::Channel, "cannot execute command on disconnected session"),
            );
        }
        session.executed_commands.push(command.to_owned());
        assert(session.executed_commands@.drop_last() =~= old(session).executed_commands@);
        let mut text = String::new();
        push_str(&mut text, "fake ssh executed: ");
        push_str(&mut text, command);
        push_str(&mut text, "\n");
        Ok(ExecOutput { stdout: text_bytes(text), stderr: Vec::new(), exit_status: 0 })
    }

    /// Closing never fails.
    open spec fn disconnect_outcome(&self, session: FakeSshSession, r: SshResult<()>) -> bool {
        r is Ok
    }

    fn disconnect(&self, session: FakeSshSession) -> (r: SshResult<()>)
        ensures
            r is Ok,
    {
        Ok(())
    }
}

impl ShellAdapter for FakeSshAdapter {
    type Shell = FakeShellSession;

    open spec fn open_outcome(&self, config: SshConnectionConfig, r: SshResult<FakeShellSession>) -> bool {
        match config_problem(config) {
            Some(m) => r matches Err(e) && e@ == configuration_error(m),
            None => r matches Ok(s) && fresh_fake_shell(config, s),
        }
    }

    /// A connected shell holding a greeting, the terminal line and a prompt.
    fn open_shell(&self, config: &SshConnectionConfig) -> (r: SshResult<FakeShellSession>) {
        match config.validate() {
            Err(e) => {
                return Err(e);
            },
            Ok(()) => {},
        }
        let mut banner = String::new();
        push_str(&mut banner, "Connecting to ");
        push_str(&mut banner, config.host.as_str());
        push_str(&mut banner, ":");
        push_decimal(&mut banner, config.port as u64);
        push_str(&mut banner, " as ");
        push_str(&mut banner, config.username());
        push_str(&mut banner, "\n");
        let mut established = String::new();
        push_str(&mut established, "Fake shell established with TERM=");
        push_str(&mut established, config.pty.term.as_str());
        push_str(&mut established, " and size=");
        push_decimal(&mut established, config.pty.size.columns as u64);
        push_str(&mut established, "x");
        push_decimal(&mut established, config.pty.size.rows as u64);
        push_str(&mut established, "\n");
        let mut pending_output: VecDeque<Vec<u8>> = VecDeque::new();
        pending_output.push_back(text_bytes(banner));
        pending_output.push_back(text_bytes(established));
        pending_output.push_back(bytes_of("$ "));
        let s = FakeShellSession {
            host: config.host.clone(),
            username: config.username().to_owned(),
            proxy_state: config.proxy.connected_state(),
            pty_size: config.pty.size,
            written_inputs: Vec::new(),
            connected: true,
            pending_output,
        };
        assert(s.pending() =~= seq![
            encode_utf8(fake_banner(*config)),
            encode_utf8(fake_established(*config)),
            encode_utf8("$ "@),
        ]);
        Ok(s)
    }
}

impl FakeShellSession {
    fn queue(&mut self, bytes: Vec<u8>)
        ensures
            final(self).pending() == old(self).pending().push(bytes@),
            final(self).spec_connected() == old(self).spec_connected(),
            final(self).host == old(self).host,
            final(self).username == old(self).username,
            final(self).proxy_state == old(self).proxy_state,
            final(self).pty_size == old(self).pty_size,
            final(self).written_inputs == old(self).written_inputs,
    {
        let ghost v = bytes@;
        self.pending_output.push_back(bytes);
        assert(self.pending() =~= old(self).pending().push(v));
    }
}

impl ShellSession for FakeShellSession {
    closed spec fn spec_connected(&self) -> bool {
        self.connected
    }

    closed spec fn pending(&self) -> Seq<Seq<u8>> {
        chunk_views(self.pending_output@)
    }

    open spec fn same_channel(&self, other: Self) -> bool {
        &&& same_endpoint(*self, other)
        &&& other.pty_size == self.pty_size
        &&& other.written_inputs == self.written_inputs
        &&& other.spec_connected() == self.spec_connected()
    }

    open spec fn wrote(&self, after: Self, bytes: Seq<u8>, r: SshResult<()>) -> bool {
        if self.spec_connected() {
            &&& r is Ok
            &&& after.spec_connected()
            &&& after.pending() == self.pending().push(encode_utf8(fake_echo(bytes)))
            &&& same_endpoint(*self, after)
            &&& after.pty_size == self.pty_size
            &&& chunk_views(after.written_inputs@) == chunk_views(self.written_inputs@).push(bytes)
        } else {
            (r matches Err(e) && e@ == closed_channel(
                "cannot write input into disconnected shell session"@,
            )) && after == *self
        }
    }

    open spec fn resized(&self, after: Self, size: PtySize, r: SshResult<()>) -> bool {
        if self.spec_connected() {
            &&& r is Ok
            &&& after.spec_connected()
            &&& after.pending() == self.pending().push(encode_utf8(fake_resized(size)))
            &&& same_endpoint(*self, after)
            &&& after.pty_size == size
            &&& after.written_inputs == self.written_inputs
        } else {
            (r matches Err(e) && e@ == closed_channel("cannot resize disconnected shell session"@))
                && after == *self
        }
    }

    open spec fn closed(&self, after: Self, r: SshResult<()>) -> bool {
        &&& r is Ok
        &&& !after.spec_connected()
        &&& after.pending() == self.pending()
        &&& same_endpoint(*self, after)
        &&& after.pty_size == self.pty_size
        &&& after.written_inputs == self.written_inputs
    }

    fn kind(&self) -> (k: ChannelKind)
        ensures
            k == ChannelKind::Shell,
    {
        ChannelKind::Shell
    }

    fn is_connected(&self) -> (b: bool) {
        self.connected
    }

    /// The front chunk; an error once disconnected.
    fn poll_output(&mut self) -> (r: SshResult<Vec<u8>>)
        ensures
            old(self).spec_connected() ==> r is Ok,
            !old(self).spec_connected() ==> (r matches Err(e) && e@ == closed_channel(
                "cannot poll output from disconnected shell session"@,
            )) && *final(self) == *old(self),
            final(self).spec_connected() == old(self).spec_connected(),
            final(self).host == old(self).host,
            final(self).pty_size == old(self).pty_size,
            final(self).written_inputs == old(self).written_inputs,
    {
        if !self.connected {
            return Err(
                SshError::new(
                    SshErrorKind::Channel,
                    "cannot poll output from disconnected shell session",
                ),
            );
        }
        let ghost before = self.pending();
        match self.pending_output.pop_front() {
            Some(bytes) => {
                assert(self.pending() =~= before.drop_first());
                Ok(bytes)
            },
            None => {
                assert(front_chunk(before) =~= Seq::<u8>::empty());
                Ok(Vec::new())
            },
        }
    }

    /// Records the input and queues an echo of it (carriage returns escaped).
    fn write_input(&mut self, bytes: &[u8]) -> (r: SshResult<()>)
        ensures
            old(self).spec_connected() ==> r is Ok && final(self).pending() == old(self).pending().push(
                encode_utf8(fake_echo(bytes@)),
            ) && chunk_views(final(self).written_inputs@) == chunk_views(
                old(self).written_inputs@,
            ).push(bytes@) && final(self).spec_connected() && final(self).pty_size == old(self).pty_size,
            !old(self).spec_connected() ==> (r matches Err(e) && e@ == closed_channel(
                "cannot write input into disconnected shell session"@,
            )) && *final(self) == *old(self),
    {
        if !self.connected {
            return Err(
                SshError::new(
                    SshErrorKind::Channel,
                    "cannot write input into disconnected shell session",
                ),
            );
        }
        let copy = vstd::slice::slice_to_vec(bytes);
        let ghost before = self.written_inputs@;
        self.written_inputs.push(copy);
        assert(chunk_views(self.written_inputs@) =~= chunk_views(before).push(bytes@));
        let printable = escape_carriage_returns(decode_lossy(bytes).as_str());
        let mut text = String::new();
        push_str(&mut text, "fake-shell received input: ");
        push_str(&mut text, printable.as_str());
        push_str(&mut text, "\n$ ");
        self.queue(text_bytes(text));
        Ok(())
    }

    /// Records the new size and queues a notice of it.
    fn resize_pty(&mut self, size: PtySize) -> (r: SshResult<()>)
        ensures
            old(self).spec_connected() ==> r is Ok && final(self).pending() == old(self).pending().push(encode_utf8(fake_resized(size))) && final(self).pty_size == size
                && final(self).spec_connected(),
            !old(self).spec_connected() ==> (r matches Err(e) && e@ == closed_channel(
                "cannot resize disconnected shell session"@,
            )) && *final(self) == *old(self),
    {
        if !self.connected {
            return Err(
                SshError::new(SshErrorKind::Channel, "cannot resize disconnected shell session"),
            );
        }
        self.pty_size = size;
        let mut text = String::new();
        push_str(&mut text, "fake-shell resized to ");
        push_decimal(&mut text, size.columns as u64);
        push_str(&mut text, "x");
        push_decimal(&mut text, size.rows as u64);
        push_str(&mut text, "\n$ ");
        self.queue(text_bytes(text));
        Ok(())
    }

    /// Marks the shell disconnected.
    fn disconnect(&mut self) -> (r: SshResult<()>)
        ensures
            r is Ok,
            !final(self).spec_connected(),
            final(self).pending() == old(self).pending(),
    {
        self.connected = false;
        Ok(())
    }
}

} // verus!
