//! SSH connection configuration and client adapters.
use vstd::prelude::*;

use crate::ssh::auth::{auth_username, AuthMethod};
use crate::ssh::channel::{after_poll, front_chunk, ChannelKind, ShellSession};
use crate::ssh::error::{SshError, SshErrorKind, SshErrorView, SshResult};
use crate::ssh::fake::{closed_channel, fresh_fake_shell, FakeShellSession, FakeSshAdapter};
use crate::ssh::forwarding::TunnelConfig;
use crate::ssh::host_key::HostKeyPolicy;
use crate::ssh::proxy::ProxyConfig;
use crate::ssh::pty::{PtyConfig, PtySize, DEFAULT_PTY_COLUMNS, DEFAULT_PTY_ROWS};
use crate::ssh::real_transport::{fresh_real_shell, RealShellSessionPlaceholder, RealSshAdapter};
use crate::text::{chars_of, trim_bounds, trim_ws};

verus! {

/// Seconds a connection attempt may take by default.
pub const DEFAULT_CONNECT_TIMEOUT_SECS: u64 = 30;

/// Everything needed to open an SSH connection.
#[derive(Debug, PartialEq, Eq)]
pub struct SshConnectionConfig {
    pub host: String,
    pub port: u16,
    pub auth: AuthMethod,
    pub host_key_policy: HostKeyPolicy,
    pub proxy: ProxyConfig,
    pub pty: PtyConfig,
    pub tunnels: Vec<TunnelConfig>,
    pub connect_timeout_secs: u64,
}

/// The first problem `validate` reports, if any.
pub open spec fn config_problem(c: SshConnectionConfig) -> Option<Seq<char>> {
    if trim_ws(c.host@).len() == 0 {
        Some("ssh host must not be empty"@)
    } else if c.port == 0 {
        Some("ssh port must be greater than zero"@)
    } else if trim_ws(auth_username(c.auth)).len() == 0 {
        Some("ssh username must not be empty"@)
    } else {
        None
    }
}

/// The configuration error for a problem text.
pub open spec fn configuration_error(message: Seq<char>) -> SshErrorView {
    SshErrorView { kind: SshErrorKind::Configuration, message }
}

/// Whether `s` is empty once surrounding whitespace is removed.
pub fn is_blank(s: &str) -> (b: bool)
    ensures
        b == (trim_ws(s@).len() == 0),
{
    let chars = chars_of(s);
    let (start, end) = trim_bounds(&chars);
    start == end
}

impl SshConnectionConfig {
    /// A configuration with strict host-key checking, no proxy, the default
    /// PTY, no tunnels and the default timeout.
    pub fn new(host: &str, port: u16, auth: AuthMethod) -> (c: SshConnectionConfig)
        ensures
            c.host@ == host@,
            c.port == port,
            c.auth == auth,
            c.host_key_policy == HostKeyPolicy::Strict,
            c.proxy == ProxyConfig::Direct,
            c.pty.term@ == "xterm-256color"@,
            c.pty.size == (PtySize {
                columns: DEFAULT_PTY_COLUMNS,
                rows: DEFAULT_PTY_ROWS,
                pixel_width: 0,
                pixel_height: 0,
            }),
            c.tunnels@.len() == 0,
            c.connect_timeout_secs == DEFAULT_CONNECT_TIMEOUT_SECS,
    {
        SshConnectionConfig {
            host: host.to_owned(),
            port,
            auth,
            host_key_policy: HostKeyPolicy::Strict,
            proxy: ProxyConfig::Direct,
            pty: PtyConfig::default(),
            tunnels: Vec::new(),
            connect_timeout_secs: DEFAULT_CONNECT_TIMEOUT_SECS,
        }
    }

    /// The remote user.
    pub fn username(&self) -> (u: &str)
        ensures
            u@ == auth_username(self.auth),
    {
        self.auth.username()
    }

    /// Rejects a blank host, port zero and a blank user, in that order.
    pub fn validate(&self) -> (r: SshResult<()>)
        ensures
            match config_problem(*self) {
                Some(m) => r matches Err(e) && e@ == configuration_error(m),
                None => r is Ok,
            },
    {
        if is_blank(self.host.as_str()) {
            return Err(SshError::configuration("ssh host must not be empty"));
        }
        if self.port == 0 {
            return Err(SshError::configuration("ssh port must be greater than zero"));
        }
        if is_blank(self.username()) {
            return Err(SshError::configuration("ssh username must not be empty"));
        }
        Ok(())
    }
}

impl Clone for SshConnectionConfig {
    fn clone(&self) -> (c: SshConnectionConfig)
        ensures
            c.host == self.host,
            c.port == self.port,
            c.auth == self.auth,
            c.host_key_policy == self.host_key_policy,
            c.proxy == self.proxy,
            c.pty == self.pty,
            c.tunnels@ == self.tunnels@,
            c.connect_timeout_secs == self.connect_timeout_secs,
    {
        let mut tunnels: Vec<TunnelConfig> = Vec::new();
        let mut i: usize = 0;
        while i < self.tunnels.len()
            invariant
                i <= self.tunnels@.len(),
                tunnels@ == self.tunnels@.take(i as int),
            decreases self.tunnels.len() - i,
        {
            let t = TunnelConfig {
                kind: self.tunnels[i].kind,
                bind_address: self.tunnels[i].bind_address.clone(),
                bind_port: self.tunnels[i].bind_port,
                target_host: self.tunnels[i].target_host.clone(),
                target_port: self.tunnels[i].target_port,
            };
            assert(t == self.tunnels@[i as int]);
            tunnels.push(t);
            assert(tunnels@ =~= self.tunnels@.take(i + 1));
            i = i + 1;
        }
        assert(tunnels@ =~= self.tunnels@);
        SshConnectionConfig {
            host: self.host.clone(),
            port: self.port,
            auth: self.auth.clone(),
            host_key_policy: self.host_key_policy,
            proxy: self.proxy.clone(),
            pty: self.pty.clone(),
            tunnels,
            connect_timeout_secs: self.connect_timeout_secs,
        }
    }
}

/// What a remote command produced.
#[derive(Debug, Clone, PartialEq, Eq)]
pub struct ExecOutput {
    pub stdout: Vec<u8>,
    pub stderr: Vec<u8>,
    pub exit_status: i32,
}

/// A transport that opens sessions and runs commands on them. Each adapter
/// states, through its spec functions, what its outcomes satisfy.
pub trait SshAdapter {
    type Session;

    /// What a connect outcome satisfies.
    spec fn connect_outcome(&self, config: SshConnectionConfig, r: SshResult<Self::Session>) -> bool;

    /// What a command outcome satisfies, from the session before and after.
    spec fn exec_outcome(
        &self,
        before: Self::Session,
        command: Seq<char>,
        after: Self::Session,
        r: SshResult<ExecOutput>,
    ) -> bool;

    fn connect(&self, config: &SshConnectionConfig) -> (r: SshResult<Self::Session>)
        ensures
            self.connect_outcome(*config, r),
    ;

    fn exec(&self, session: &mut Self::Session, command: &str) -> (r: SshResult<ExecOutput>)
        ensures
            self.exec_outcome(*old(session), command@, *final(session), r),
    ;

    /// What closing `session` gives.
    spec fn disconnect_outcome(&self, session: Self::Session, r: SshResult<()>) -> bool;

    fn disconnect(&self, session: Self::Session) -> (r: SshResult<()>)
        ensures
            self.disconnect_outcome(session, r),
    ;
}

/// A client over an adapter (the fake one unless another is given).
#[derive(Debug)]
pub struct SshClient<A = FakeSshAdapter> {
    adapter: A,
}

impl<A> SshClient<A> {
    pub closed spec fn spec_adapter(&self) -> A {
        self.adapter
    }
}

impl SshClient<FakeSshAdapter> {
    /// A client over the fake adapter.
    pub fn new() -> (c: Self)
        ensures
            c.spec_adapter() == FakeSshAdapter,
    {
        SshClient { adapter: FakeSshAdapter }
    }
}

impl Default for SshClient<FakeSshAdapter> {
    fn default() -> (c: Self)
        ensures
            c.spec_adapter() == FakeSshAdapter,
    {
        SshClient::new()
    }
}

impl<A: SshAdapter> SshClient<A> {
    /// A client over `adapter`.
    pub fn with_adapter(adapter: A) -> (c: Self)
        ensures
            c.spec_adapter() == adapter,
    {
        SshClient { adapter }
    }

    /// Opens a session through the adapter.
    pub fn connect(&self, config: &SshConnectionConfig) -> (r: SshResult<A::Session>)
        ensures
            self.spec_adapter().connect_outcome(*config, r),
    {
        self.adapter.connect(config)
    }

    /// Runs a command through the adapter.
    pub fn exec(&self, session: &mut A::Session, command: &str) -> (r: SshResult<ExecOutput>)
        ensures
            self.spec_adapter().exec_outcome(*old(session), command@, *final(session), r),
    {
        self.adapter.exec(session, command)
    }

    /// Closes a session through the adapter.
    pub fn disconnect(&self, session: A::Session) -> (r: SshResult<()>)
        ensures
            self.spec_adapter().disconnect_outcome(session, r),
    {
        self.adapter.disconnect(session)
    }
}

/// A transport that opens interactive shells.
pub trait ShellAdapter {
    type Shell: ShellSession;

    /// What an open outcome satisfies.
    spec fn open_outcome(&self, config: SshConnectionConfig, r: SshResult<Self::Shell>) -> bool;

    fn open_shell(&self, config: &SshConnectionConfig) -> (r: SshResult<Self::Shell>)
        ensures
            self.open_outcome(*config, r),
    ;
}

/// Opens shells through an adapter.
#[derive(Debug)]
pub struct ShellClient<A = FakeSshAdapter> {
    adapter: A,
}

impl<A> ShellClient<A> {
    pub closed spec fn spec_adapter(&self) -> A {
        self.adapter
    }
}

impl ShellClient<FakeSshAdapter> {
    /// A shell client over the fake adapter.
    pub fn new() -> (c: Self)
        ensures
            c.spec_adapter() == FakeSshAdapter,
    {
        ShellClient { adapter: FakeSshAdapter }
    }

    /// A shell client over the fake adapter.
    pub fn with_fake_backend() -> (c: Self)
        ensures
            c.spec_adapter() == FakeSshAdapter,
    {
        ShellClient { adapter: FakeSshAdapter }
    }
}

impl ShellClient<RealSshAdapter> {
    /// A shell client over the staged real adapter.
    pub fn with_real_backend() -> (c: Self)
        ensures
            c.spec_adapter() == RealSshAdapter,
    {
        ShellClient { adapter: RealSshAdapter }
    }
}

impl<A: ShellAdapter> ShellClient<A> {
    /// A shell client over `adapter`.
    pub fn with_adapter(adapter: A) -> (c: Self)
        ensures
            c.spec_adapter() == adapter,
    {
        ShellClient { adapter }
    }

    /// Opens a shell through the adapter.
    pub fn open_shell(&self, config: &SshConnectionConfig) -> (r: SshResult<A::Shell>)
        ensures
            self.spec_adapter().open_outcome(*config, r),
    {
        self.adapter.open_shell(config)
    }
}

/// Which transport opens shells.
#[derive(Debug, Clone, Copy, PartialEq, Eq, Structural)]
pub enum TransportBackend {
    Fake,
    Real,
}

pub open spec fn backend_label(b: TransportBackend) -> Seq<char> {
    match b {
        TransportBackend::Fake => "fake"@,
        TransportBackend::Real => "real"@,
    }
}

/// A shell of either transport.
#[derive(Debug)]
pub enum AnyShell {
    Fake(FakeShellSession),
    Real(RealShellSessionPlaceholder),
}

/// An open outcome of the selected transport, as a shell of either kind: a
/// configuration problem is reported, else a fresh shell of the transport's
/// kind is opened.
pub open spec fn any_open_outcome(
    backend: TransportBackend,
    config: SshConnectionConfig,
    r: SshResult<AnyShell>,
) -> bool {
    match config_problem(config) {
        Some(m) => r matches Err(e) && e@ == configuration_error(m),
        None => match backend {
            TransportBackend::Fake => r matches Ok(AnyShell::Fake(s)) && fresh_fake_shell(config, s),
            TransportBackend::Real => r matches Ok(AnyShell::Real(s)) && fresh_real_shell(config, s),
        },
    }
}

/// Whether polling the shell cannot fail: a staged shell, or a connected fake one.
pub open spec fn polls_cleanly(s: AnyShell) -> bool {
    match s {
        AnyShell::Fake(f) => f.spec_connected(),
        AnyShell::Real(_) => true,
    }
}

/// A shell that has just taken input, or a resize, can be polled.
pub proof fn lemma_accepting_shell_polls(
    sh: AnyShell,
    sh2: AnyShell,
    bytes: Seq<u8>,
    size: PtySize,
    w: SshResult<()>,
)
    ensures
        w is Ok && sh.wrote(sh2, bytes, w) ==> polls_cleanly(sh2),
        w is Ok && sh.resized(sh2, size, w) ==> polls_cleanly(sh2),
{
}

impl TransportBackend {
    /// Short name shown to the user.
    pub fn label(&self) -> (s: &'static str)
        ensures
            s@ == backend_label(*self),
    {
        match self {
            TransportBackend::Fake => "fake",
            TransportBackend::Real => "real",
        }
    }

    /// Opens a shell with this transport.
    pub fn open_shell(&self, config: &SshConnectionConfig) -> (r: SshResult<AnyShell>)
        ensures
            any_open_outcome(*self, *config, r),
    {
        match self {
            TransportBackend::Fake => match ShellClient::with_fake_backend().open_shell(config) {
                Ok(s) => Ok(AnyShell::Fake(s)),
                Err(e) => Err(e),
            },
            TransportBackend::Real => match ShellClient::with_real_backend().open_shell(config) {
                Ok(s) => Ok(AnyShell::Real(s)),
                Err(e) => Err(e),
            },
        }
    }
}

impl ShellSession for AnyShell {
    open spec fn spec_connected(&self) -> bool {
        match self {
            AnyShell::Fake(s) => s.spec_connected(),
            AnyShell::Real(s) => s.spec_connected(),
        }
    }

    open spec fn pending(&self) -> Seq<Seq<u8>> {
        match self {
            AnyShell::Fake(s) => s.pending(),
            AnyShell::Real(s) => s.pending(),
        }
    }

    open spec fn same_channel(&self, other: Self) -> bool {
        match (self, other) {
            (AnyShell::Fake(s), AnyShell::Fake(t)) => s.same_channel(t),
            (AnyShell::Real(s), AnyShell::Real(t)) => s.same_channel(t),
            _ => false,
        }
    }

    open spec fn wrote(&self, after: Self, bytes: Seq<u8>, r: SshResult<()>) -> bool {
        match (self, after) {
            (AnyShell::Fake(s), AnyShell::Fake(t)) => s.wrote(t, bytes, r),
            (AnyShell::Real(s), AnyShell::Real(t)) => s.wrote(t, bytes, r),
            _ => false,
        }
    }

    open spec fn resized(&self, after: Self, size: PtySize, r: SshResult<()>) -> bool {
        match (self, after) {
            (AnyShell::Fake(s), AnyShell::Fake(t)) => s.resized(t, size, r),
            (AnyShell::Real(s), AnyShell::Real(t)) => s.resized(t, size, r),
            _ => false,
        }
    }

    open spec fn closed(&self, after: Self, r: SshResult<()>) -> bool {
        match (self, after) {
            (AnyShell::Fake(s), AnyShell::Fake(t)) => s.closed(t, r),
            (AnyShell::Real(s), AnyShell::Real(t)) => s.closed(t, r),
            _ => false,
        }
    }

    fn kind(&self) -> (k: ChannelKind)
        ensures
            k == ChannelKind::Shell,
    {
        ChannelKind::Shell
    }

    fn is_connected(&self) -> (b: bool) {
        match self {
            AnyShell::Fake(s) => s.is_connected(),
            AnyShell::Real(s) => s.is_connected(),
        }
    }

    /// Polling fails only on a disconnected fake shell, and keeps whether it
    /// can fail.
    fn poll_output(&mut self) -> (r: SshResult<Vec<u8>>)
        ensures
            polls_cleanly(*old(self)) ==> r is Ok,
            !polls_cleanly(*old(self)) ==> (r matches Err(e) && e@ == closed_channel(
                "cannot poll output from disconnected shell session"@,
            )) && *final(self) == *old(self),
            polls_cleanly(*final(self)) == polls_cleanly(*old(self)),
    {
        let r = match self {
            AnyShell::Fake(s) => s.poll_output(),
            AnyShell::Real(s) => s.poll_output(),
        };
        r
    }

    fn write_input(&mut self, bytes: &[u8]) -> (r: SshResult<()>) {
        match self {
            AnyShell::Fake(s) => s.write_input(bytes),
            AnyShell::Real(s) => s.write_input(bytes),
        }
    }

    fn resize_pty(&mut self, size: PtySize) -> (r: SshResult<()>) {
        match self {
            AnyShell::Fake(s) => s.resize_pty(size),
            AnyShell::Real(s) => s.resize_pty(size),
        }
    }

    fn disconnect(&mut self) -> (r: SshResult<()>) {
        match self {
            AnyShell::Fake(s) => s.disconnect(),
            AnyShell::Real(s) => s.disconnect(),
        }
    }
}

} // verus!
