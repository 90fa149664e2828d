//! The staged real SSH transport: it plans a connection and reports the stage
//! it has reached, before any network transport exists.
use std::collections::VecDeque;
use vstd::prelude::*;
use vstd::utf8::encode_utf8;

use crate::ssh::auth::{auth_username, AuthMethod};
use crate::ssh::channel::{after_poll, front_chunk, ChannelKind, ShellSession};
use crate::ssh::client::{
    config_problem, configuration_error, ExecOutput, ShellAdapter, SshAdapter,
    SshConnectionConfig,
};
use crate::ssh::error::{SshError, SshErrorKind, SshErrorView, SshResult};
use crate::ssh::fake::{chunk_views, text_bytes};
use crate::ssh::host_key::{host_key_label, HostKeyPolicy};
use crate::ssh::proxy::{proxy_label, ProxyConfig};
use crate::ssh::pty::{PtyConfig, PtySize};
use crate::text::{
    decimal, decode_lossy, escape_carriage_returns, escape_cr, push_decimal, push_str, lossy_text,
};

verus! {

/// The staged real transport.
#[derive(Debug, Clone, Copy, Default, PartialEq, Eq, Structural)]
pub struct RealSshAdapter;

/// How the real transport will authenticate.
#[derive(Debug, PartialEq, Eq)]
pub enum RealAuthStrategy {
    Password,
    PrivateKey { key_path: String, has_passphrase: bool },
    Agent,
    KeyboardInteractive,
}

/// The strategy for an authentication method.
pub open spec fn strategy_of(auth: AuthMethod) -> RealAuthStrategy {
    match auth {
        AuthMethod::Password { .. } => RealAuthStrategy::Password,
        AuthMethod::PrivateKey { key_path, passphrase, .. } => RealAuthStrategy::PrivateKey {
            key_path,
            has_passphrase: passphrase is Some,
        },
        AuthMethod::Agent { .. } => RealAuthStrategy::Agent,
        AuthMethod::KeyboardInteractive { .. } => RealAuthStrategy::KeyboardInteractive,
    }
}

pub open spec fn strategy_label(s: RealAuthStrategy) -> Seq<char> {
    match s {
        RealAuthStrategy::Password => "password"@,
        RealAuthStrategy::PrivateKey { .. } => "private-key"@,
        RealAuthStrategy::Agent => "agent"@,
        RealAuthStrategy::KeyboardInteractive => "keyboard-interactive"@,
    }
}

impl RealAuthStrategy {
    /// The strategy for `auth`.
    pub fn from_auth_method(auth: &AuthMethod) -> (s: RealAuthStrategy)
        ensures
            s == strategy_of(*auth),
    {
        match auth {
            AuthMethod::Password { .. } => RealAuthStrategy::Password,
            AuthMethod::PrivateKey { key_path, passphrase, .. } => RealAuthStrategy::PrivateKey {
                key_path: key_path.clone(),
                has_passphrase: passphrase.is_some(),
            },
            AuthMethod::Agent { .. } => RealAuthStrategy::Agent,
            AuthMethod::KeyboardInteractive { .. } => RealAuthStrategy::KeyboardInteractive,
        }
    }

    /// Short name shown in connection plans.
    pub fn label(&self) -> (s: &'static str)
        ensures
            s@ == strategy_label(*self),
    {
        match self {
            RealAuthStrategy::Password => "password",
            RealAuthStrategy::PrivateKey { .. } => "private-key",
            RealAuthStrategy::Agent => "agent",
            RealAuthStrategy::KeyboardInteractive => "keyboard-interactive",
        }
    }
}

impl Clone for RealAuthStrategy {
    fn clone(&self) -> (c: RealAuthStrategy)
        ensures
            c == *self,
    {
        match self {
            RealAuthStrategy::Password => RealAuthStrategy::Password,
            RealAuthStrategy::PrivateKey { key_path, has_passphrase } => RealAuthStrategy::PrivateKey {
                key_path: key_path.clone(),
                has_passphrase: *has_passphrase,
            },
            RealAuthStrategy::Agent => RealAuthStrategy::Agent,
            RealAuthStrategy::KeyboardInteractive => RealAuthStrategy::KeyboardInteractive,
        }
    }
}

/// Everything the real transport will need, captured from a configuration.
#[derive(Debug, PartialEq, Eq)]
pub struct RealConnectionPlan {
    pub host: String,
    pub port: u16,
    pub username: String,
    pub auth_strategy: RealAuthStrategy,
    pub host_key_policy: HostKeyPolicy,
    pub proxy: ProxyConfig,
    pub pty: PtyConfig,
    pub connect_timeout_secs: u64,
}

/// `plan` captures configuration `c`.
pub open spec fn plan_for(c: SshConnectionConfig, plan: RealConnectionPlan) -> bool {
    &&& plan.host@ == c.host@
    &&& plan.port == c.port
    &&& plan.username@ == auth_username(c.auth)
    &&& plan.auth_strategy == strategy_of(c.auth)
    &&& plan.host_key_policy == c.host_key_policy
    &&& plan.proxy == c.proxy
    &&& plan.pty == c.pty
    &&& plan.connect_timeout_secs == c.connect_timeout_secs
}

/// Steps of a real connection, in order.
#[derive(Debug, Clone, Copy, PartialEq, Eq, Structural)]
pub enum RealConnectionStage {
    Prepared,
    ProxyNegotiation,
    TcpConnect,
    SshHandshake,
    HostKeyVerification,
    Authentication,
    PtyRequest,
    ShellOpen,
    Connected,
    Disconnected,
    Failed,
}

pub open spec fn stage_label(s: RealConnectionStage) -> Seq<char> {
    match s {
        RealConnectionStage::Prepared => "prepared"@,
        RealConnectionStage::ProxyNegotiation => "proxy-negotiation"@,
        RealConnectionStage::TcpConnect => "tcp-connect"@,
        RealConnectionStage::SshHandshake => "ssh-handshake"@,
        RealConnectionStage::HostKeyVerification => "host-key-verification"@,
        RealConnectionStage::Authentication => "authentication"@,
        RealConnectionStage::PtyRequest => "pty-request"@,
        RealConnectionStage::ShellOpen => "shell-open"@,
        RealConnectionStage::Connected => "connected"@,
        RealConnectionStage::Disconnected => "disconnected"@,
        RealConnectionStage::Failed => "failed"@,
    }
}

/// What each stage waits for.
pub open spec fn stage_note_text(s: RealConnectionStage) -> Seq<char> {
    match s {
        RealConnectionStage::Prepared => "Connection plan captured before any network activity."@,
        RealConnectionStage::ProxyNegotiation => "Proxy negotiation must complete before TCP connect can begin."@,
        RealConnectionStage::TcpConnect => "TCP socket creation is the next missing transport step."@,
        RealConnectionStage::SshHandshake => "SSH identification exchange and key negotiation are pending."@,
        RealConnectionStage::HostKeyVerification => "Presented host key must be checked against the configured policy."@,
        RealConnectionStage::Authentication => "Authentication must run using the configured auth strategy."@,
        RealConnectionStage::PtyRequest => "Remote PTY allocation must complete before interactive shell open."@,
        RealConnectionStage::ShellOpen => "Shell channel open is the next step after transport and auth succeed."@,
        RealConnectionStage::Connected => "Transport and shell are live."@,
        RealConnectionStage::Disconnected => "Connection attempt or shell was explicitly disconnected."@,
        RealConnectionStage::Failed => "Connection attempt reached a failed terminal state."@,
    }
}

impl RealConnectionStage {
    /// Short name of the stage.
    pub fn label(self) -> (s: &'static str)
        ensures
            s@ == stage_label(self),
    {
        match self {
            RealConnectionStage::Prepared => "prepared",
            RealConnectionStage::ProxyNegotiation => "proxy-negotiation",
            RealConnectionStage::TcpConnect => "tcp-connect",
            RealConnectionStage::SshHandshake => "ssh-handshake",
            RealConnectionStage::HostKeyVerification => "host-key-verification",
            RealConnectionStage::Authentication => "authentication",
            RealConnectionStage::PtyRequest => "pty-request",
            RealConnectionStage::ShellOpen => "shell-open",
            RealConnectionStage::Connected => "connected",
            RealConnectionStage::Disconnected => "disconnected",
            RealConnectionStage::Failed => "failed",
        }
    }
}

/// The stage an attempt moves to first: proxy negotiation when there is a
/// proxy, else the TCP connect.
pub open spec fn first_network_stage(proxy: ProxyConfig) -> RealConnectionStage {
    match proxy {
        ProxyConfig::Direct => RealConnectionStage::TcpConnect,
        _ => RealConnectionStage::ProxyNegotiation,
    }
}

/// One recorded stage and its note.
#[derive(Debug, PartialEq, Eq)]
pub struct RealConnectionSnapshot {
    pub stage: RealConnectionStage,
    pub note: String,
}

impl Clone for RealConnectionSnapshot {
    fn clone(&self) -> (c: RealConnectionSnapshot)
        ensures
            c == *self,
    {
        RealConnectionSnapshot { stage: self.stage, note: self.note.clone() }
    }
}

/// A connection attempt: its plan, current stage and the stages it went through.
#[derive(Debug, PartialEq, Eq)]
pub struct RealConnectionAttempt {
    pub plan: RealConnectionPlan,
    pub stage: RealConnectionStage,
    pub history: Vec<RealConnectionSnapshot>,
}

pub open spec fn snapshot_views(h: Seq<RealConnectionSnapshot>) -> Seq<(RealConnectionStage, Seq<char>)> {
    h.map_values(|s: RealConnectionSnapshot| (s.stage, s.note@))
}

/// A snapshot of a stage with its standard note.
pub open spec fn noted(s: RealConnectionStage) -> (RealConnectionStage, Seq<char>) {
    (s, stage_note_text(s))
}

/// First transcript line: who and where.
pub open spec fn selected_line(p: RealConnectionPlan) -> Seq<char> {
    "Real SSH backend selected for "@ + p.username@ + "@"@ + p.host@ + ":"@ + decimal(p.port as nat)
}

/// Second transcript line: the plan's settings.
pub open spec fn plan_line(p: RealConnectionPlan) -> Seq<char> {
    "Connection plan: auth="@ + strategy_label(p.auth_strategy) + " host-key="@ + host_key_label(
        p.host_key_policy,
    ) + " proxy="@ + proxy_label(p.proxy) + " term="@ + p.pty.term@ + " size="@ + decimal(
        p.pty.size.columns as nat,
    ) + "x"@ + decimal(p.pty.size.rows as nat) + " timeout="@ + decimal(
        p.connect_timeout_secs as nat,
    ) + "s"@
}

/// The first transcript line for configuration `c`.
pub open spec fn selected_line_for(c: SshConnectionConfig) -> Seq<char> {
    "Real SSH backend selected for "@ + auth_username(c.auth) + "@"@ + c.host@ + ":"@ + decimal(
        c.port as nat,
    )
}

/// The second transcript line for configuration `c`.
pub open spec fn plan_line_for(c: SshConnectionConfig) -> Seq<char> {
    "Connection plan: auth="@ + strategy_label(strategy_of(c.auth)) + " host-key="@ + host_key_label(
        c.host_key_policy,
    ) + " proxy="@ + proxy_label(c.proxy) + " term="@ + c.pty.term@ + " size="@ + decimal(
        c.pty.size.columns as nat,
    ) + "x"@ + decimal(c.pty.size.rows as nat) + " timeout="@ + decimal(
        c.connect_timeout_secs as nat,
    ) + "s"@
}

/// The output a freshly opened staged shell for `c` has waiting.
pub open spec fn staged_greeting(c: SshConnectionConfig) -> Seq<Seq<u8>> {
    seq![
        line_chunk(selected_line_for(c)),
        line_chunk(plan_line_for(c)),
        line_chunk(stage_line(first_network_stage(c.proxy))),
    ]
}

/// A fresh staged shell has the greeting of its configuration waiting.
pub proof fn lemma_fresh_real_shell_greeting(c: SshConnectionConfig, s: RealShellSessionPlaceholder)
    requires
        fresh_real_shell(c, s),
    ensures
        s.pending() == staged_greeting(c),
{
    assert(selected_line(s.attempt.plan) == selected_line_for(c));
    assert(plan_line(s.attempt.plan) == plan_line_for(c));
}

/// Third transcript line: the stage reached and what it waits for.
pub open spec fn stage_line(s: RealConnectionStage) -> Seq<char> {
    "Real transport scaffold advanced to stage `"@ + stage_label(s) + "`. "@ + stage_note_text(s)
}

/// The stage after leaving `Prepared` (other stages stay).
pub open spec fn advanced_stage(a: RealConnectionAttempt) -> RealConnectionStage {
    if a.stage == RealConnectionStage::Prepared {
        first_network_stage(a.plan.proxy)
    } else {
        a.stage
    }
}

impl RealConnectionAttempt {
    /// An attempt that has recorded its plan and done nothing else.
    pub fn prepared(plan: RealConnectionPlan) -> (a: RealConnectionAttempt)
        ensures
            a.plan == plan,
            a.stage == RealConnectionStage::Prepared,
            snapshot_views(a.history@) == seq![noted(RealConnectionStage::Prepared)],
    {
        let mut history: Vec<RealConnectionSnapshot> = Vec::new();
        history.push(
            RealConnectionSnapshot {
                stage: RealConnectionStage::Prepared,
                note: Self::stage_note(RealConnectionStage::Prepared).to_owned(),
            },
        );
        let a = RealConnectionAttempt { plan, stage: RealConnectionStage::Prepared, history };
        assert(snapshot_views(a.history@) =~= seq![noted(RealConnectionStage::Prepared)]);
        a
    }

    /// A prepared attempt moved on to its first network stage.
    pub fn begin(plan: RealConnectionPlan) -> (a: RealConnectionAttempt)
        ensures
            a.plan == plan,
            a.stage == first_network_stage(plan.proxy),
            snapshot_views(a.history@) == seq![
                noted(RealConnectionStage::Prepared),
                noted(first_network_stage(plan.proxy)),
            ],
    {
        let mut attempt = Self::prepared(plan);
        let next = attempt.next_pending_stage();
        attempt.advance_to(next);
        assert(snapshot_views(attempt.history@) =~= seq![
            noted(RealConnectionStage::Prepared),
            noted(next),
        ]);
        attempt
    }

    /// Moves to `stage` and records it.
    fn advance_to(&mut self, stage: RealConnectionStage)
        ensures
            final(self).plan == old(self).plan,
            final(self).stage == stage,
            snapshot_views(final(self).history@) == snapshot_views(old(self).history@).push(
                noted(stage),
            ),
    {
        self.stage = stage;
        self.history.push(
            RealConnectionSnapshot { stage, note: Self::stage_note(stage).to_owned() },
        );
        assert(snapshot_views(self.history@) =~= snapshot_views(old(self).history@).push(
            noted(stage),
        ));
    }

    /// The transcript of starting the attempt: who and where, the plan, and
    /// the stage reached; a prepared attempt first moves to its first network
    /// stage.
    pub fn begin_transcript_lines(&mut self) -> (lines: Vec<String>)
        ensures
            final(self).plan == old(self).plan,
            final(self).stage == advanced_stage(*old(self)),
            old(self).stage == RealConnectionStage::Prepared ==> snapshot_views(
                final(self).history@,
            ) == snapshot_views(old(self).history@).push(noted(final(self).stage)),
            old(self).stage != RealConnectionStage::Prepared ==> final(self).history@ == old(
                self,
            ).history@,
            lines@.len() == 3,
            lines@[0]@ == selected_line(old(self).plan),
            lines@[1]@ == plan_line(old(self).plan),
            lines@[2]@ == stage_line(final(self).stage),
    {
        let mut first = String::new();
        push_str(&mut first, "Real SSH backend selected for ");
        push_str(&mut first, self.plan.username.as_str());
        push_str(&mut first, "@");
        push_str(&mut first, self.plan.host.as_str());
        push_str(&mut first, ":");
        push_decimal(&mut first, self.plan.port as u64);
        let mut second = String::new();
        push_str(&mut second, "Connection plan: auth=");
        push_str(&mut second, self.plan.auth_strategy.label());
        push_str(&mut second, " host-key=");
        push_str(&mut second, self.plan.host_key_policy.label());
        push_str(&mut second, " proxy=");
        push_str(&mut second, self.plan.proxy.label());
        push_str(&mut second, " term=");
        push_str(&mut second, self.plan.pty.term.as_str());
        push_str(&mut second, " size=");
        push_decimal(&mut second, self.plan.pty.size.columns as u64);
        push_str(&mut second, "x");
        push_decimal(&mut second, self.plan.pty.size.rows as u64);
        push_str(&mut second, " timeout=");
        push_decimal(&mut second, self.plan.connect_timeout_secs);
        push_str(&mut second, "s");
        if self.stage == RealConnectionStage::Prepared {
            let next = self.next_pending_stage();
            self.advance_to(next);
        }
        let mut third = String::new();
        push_str(&mut third, "Real transport scaffold advanced to stage `");
        push_str(&mut third, self.stage.label());
        push_str(&mut third, "`. ");
        push_str(&mut third, Self::stage_note(self.stage));
        let mut lines: Vec<String> = Vec::new();
        lines.push(first);
        lines.push(second);
        lines.push(third);
        lines
    }

    /// What `stage` waits for.
    pub fn stage_note(stage: RealConnectionStage) -> (s: &'static str)
        ensures
            s@ == stage_note_text(stage),
    {
        match stage {
            RealConnectionStage::Prepared => "Connection plan captured before any network activity.",
            RealConnectionStage::ProxyNegotiation => "Proxy negotiation must complete before TCP connect can begin.",
            RealConnectionStage::TcpConnect => "TCP socket creation is the next missing transport step.",
            RealConnectionStage::SshHandshake => "SSH identification exchange and key negotiation are pending.",
            RealConnectionStage::HostKeyVerification => "Presented host key must be checked against the configured policy.",
            RealConnectionStage::Authentication => "Authentication must run using the configured auth strategy.",
            RealConnectionStage::PtyRequest => "Remote PTY allocation must complete before interactive shell open.",
            RealConnectionStage::ShellOpen => "Shell channel open is the next step after transport and auth succeed.",
            RealConnectionStage::Connected => "Transport and shell are live.",
            RealConnectionStage::Disconnected => "Connection attempt or shell was explicitly disconnected.",
            RealConnectionStage::Failed => "Connection attempt reached a failed terminal state.",
        }
    }

    /// The first network stage for this attempt's plan.
    pub fn next_pending_stage(&self) -> (s: RealConnectionStage)
        ensures
            s == first_network_stage(self.plan.proxy),
    {
        match self.plan.proxy {
            ProxyConfig::Direct => RealConnectionStage::TcpConnect,
            _ => RealConnectionStage::ProxyNegotiation,
        }
    }
}

/// A shell on the staged transport: it never connects, and reports what it
/// would have done.
#[derive(Debug)]
pub struct RealShellSessionPlaceholder {
    pub attempt: RealConnectionAttempt,
    pub pending_output: VecDeque<Vec<u8>>,
}

/// A transcript line as queued output: the line and a newline.
pub open spec fn line_chunk(line: Seq<char>) -> Seq<u8> {
    encode_utf8(line + "\n"@)
}

/// Output queued for input the staged shell cannot send.
pub open spec fn buffered_input_line(stage: RealConnectionStage, bytes: Seq<u8>) -> Seq<char> {
    "real-shell scaffold buffered input at stage `"@ + stage_label(stage) + "`: "@ + escape_cr(
        lossy_text(bytes),
    ) + "\n"@
}

/// Output queued for a resize of the staged shell.
pub open spec fn planned_resize_line(size: PtySize, stage: RealConnectionStage) -> Seq<char> {
    "real-shell scaffold updated planned PTY to "@ + decimal(size.columns as nat) + "x"@ + decimal(
        size.rows as nat,
    ) + " while waiting at stage `"@ + stage_label(stage) + "`.\n"@
}

/// A freshly opened staged shell for `c`.
pub open spec fn fresh_real_shell(c: SshConnectionConfig, s: RealShellSessionPlaceholder) -> bool {
    &&& plan_for(c, s.attempt.plan)
    &&& s.attempt.stage == first_network_stage(c.proxy)
    &&& snapshot_views(s.attempt.history@) == seq![
        noted(RealConnectionStage::Prepared),
        noted(first_network_stage(c.proxy)),
    ]
    &&& s.pending() == seq![
        line_chunk(selected_line(s.attempt.plan)),
        line_chunk(plan_line(s.attempt.plan)),
        line_chunk(stage_line(first_network_stage(c.proxy))),
    ]
}

impl RealSshAdapter {
    /// Captures a validated configuration as a plan.
    pub fn plan_connection(&self, config: &SshConnectionConfig) -> (r: SshResult<RealConnectionPlan>)
        ensures
            match config_problem(*config) {
                Some(m) => r matches Err(e) && e@ == configuration_error(m),
                None => r matches Ok(plan) && plan_for(*config, plan),
            },
    {
        match config.validate() {
            Err(e) => {
                return Err(e);
            },
            Ok(()) => {},
        }
        Ok(
            RealConnectionPlan {
                host: config.host.clone(),
                port: config.port,
                username: config.username().to_owned(),
                auth_strategy: RealAuthStrategy::from_auth_method(&config.auth),
                host_key_policy: config.host_key_policy,
                proxy: config.proxy.clone(),
                pty: config.pty.clone(),
                connect_timeout_secs: config.connect_timeout_secs,
            },
        )
    }

    /// A staged shell whose attempt is prepared and which has no output yet.
    pub fn scaffold_shell_session(&self, config: &SshConnectionConfig) -> (r: SshResult<
        RealShellSessionPlaceholder,
    >)
        ensures
            match config_problem(*config) {
                Some(m) => r matches Err(e) && e@ == configuration_error(m),
                None => r matches Ok(s) && plan_for(*config, s.attempt.plan) && s.attempt.stage
                    == RealConnectionStage::Prepared && snapshot_views(s.attempt.history@)
                    == seq![noted(RealConnectionStage::Prepared)] && s.pending().len() == 0,
            },
    {
        let plan = match self.plan_connection(config) {
            Ok(plan) => plan,
            Err(e) => {
                return Err(e);
            },
        };
        let s = RealShellSessionPlaceholder {
            attempt: RealConnectionAttempt::prepared(plan),
            pending_output: VecDeque::new(),
        };
        assert(s.pending() =~= Seq::<Seq<u8>>::empty());
        Ok(s)
    }
}

impl SshAdapter for RealSshAdapter {
    type Session = RealConnectionAttempt;

    open spec fn connect_outcome(&self, config: SshConnectionConfig, r: SshResult<RealConnectionAttempt>) -> bool {
        match config_problem(config) {
            Some(m) => r matches Err(e) && e@ == configuration_error(m),
            None => r matches Ok(a) && plan_for(config, a.plan) && a.stage == first_network_stage(
                config.proxy,
            ) && snapshot_views(a.history@) == seq![
                noted(RealConnectionStage::Prepared),
                noted(first_network_stage(config.proxy)),
            ],
        }
    }

    open spec fn exec_outcome(
        &self,
        before: RealConnectionAttempt,
        command: Seq<char>,
        after: RealConnectionAttempt,
        r: SshResult<ExecOutput>,
    ) -> bool {
        &&& r matches Err(e) && e@ == (SshErrorView {
            kind: SshErrorKind::Unsupported,
            message: "real SSH transport adapter does not support exec yet; current stage is "@
                + stage_label(before.stage),
        })
        &&& after == before
    }

    /// A connection attempt moved to its first network stage.
    fn connect(&self, config: &SshConnectionConfig) -> (r: SshResult<RealConnectionAttempt>) {
        match self.plan_connection(config) {
            Ok(plan) => Ok(RealConnectionAttempt::begin(plan)),
            Err(e) => Err(e),
        }
    }

    /// Commands are not supported yet.
    fn exec(&self, session: &mut RealConnectionAttempt, command: &str) -> (r: SshResult<ExecOutput>) {
        let mut message = String::new();
        push_str(
            &mut message,
            "real SSH transport adapter does not support exec yet; current stage is ",
        );
        push_str(&mut message, session.stage.label());
        Err(SshError::with_message(SshErrorKind::Unsupported, message))
    }

    /// Closing never fails.
    open spec fn disconnect_outcome(&self, session: RealConnectionAttempt, r: SshResult<()>) -> bool {
        r is Ok
    }

    fn disconnect(&self, session: RealConnectionAttempt) -> (r: SshResult<()>)
        ensures
            r is Ok,
    {
        Ok(())
    }
}

impl ShellAdapter for RealSshAdapter {
    type Shell = RealShellSessionPlaceholder;

    open spec fn open_outcome(&self, config: SshConnectionConfig, r: SshResult<RealShellSessionPlaceholder>) -> bool {
        match config_problem(config) {
            Some(m) => r matches Err(e) && e@ == configuration_error(m),
            None => r matches Ok(s) && fresh_real_shell(config, s),
        }
    }

    /// A staged shell whose attempt has begun and whose output is the
    /// transcript of beginning it.
    fn open_shell(&self, config: &SshConnectionConfig) -> (r: SshResult<RealShellSessionPlaceholder>) {
        let mut shell = match self.scaffold_shell_session(config) {
            Ok(s) => s,
            Err(e) => {
                return Err(e);
            },
        };
        let ghost before = shell;
        shell.begin_connection_attempt();
        proof {
            assert(shell.pending() =~= seq![
                line_chunk(selected_line(shell.attempt.plan)),
                line_chunk(plan_line(shell.attempt.plan)),
                line_chunk(stage_line(first_network_stage(config.proxy))),
            ]);
            assert(snapshot_views(shell.attempt.history@) =~= seq![
                noted(RealConnectionStage::Prepared),
                noted(first_network_stage(config.proxy)),
            ]);
        }
        Ok(shell)
    }
}

impl RealShellSessionPlaceholder {
    fn queue(&mut self, bytes: Vec<u8>)
        ensures
            final(self).pending() == old(self).pending().push(bytes@),
            final(self).attempt == old(self).attempt,
    {
        let ghost v = bytes@;
        self.pending_output.push_back(bytes);
        assert(self.pending() =~= old(self).pending().push(v));
    }

    /// Begins the attempt and queues each transcript line.
    fn begin_connection_attempt(&mut self)
        ensures
            final(self).attempt.plan == old(self).attempt.plan,
            final(self).attempt.stage == advanced_stage(old(self).attempt),
            old(self).attempt.stage == RealConnectionStage::Prepared ==> snapshot_views(
                final(self).attempt.history@,
            ) == snapshot_views(old(self).attempt.history@).push(
                noted(final(self).attempt.stage),
            ),
            final(self).pending() == old(self).pending() + seq![
                line_chunk(selected_line(old(self).attempt.plan)),
                line_chunk(plan_line(old(self).attempt.plan)),
                line_chunk(stage_line(final(self).attempt.stage)),
            ],
    {
        let ghost start = self.pending();
        let lines = self.attempt.begin_transcript_lines();
        let ghost lv = lines@;
        let mut i: usize = 0;
        while i < lines.len()
            invariant
                i <= lines@.len(),
                lines@ == lv,
                lv.len() == 3,
                self.pending() == start + Seq::new(i as nat, |k: int| line_chunk(lv[k]@)),
                self.attempt.plan == old(self).attempt.plan,
                self.attempt.stage == advanced_stage(old(self).attempt),
                old(self).attempt.stage == RealConnectionStage::Prepared ==> snapshot_views(
                    self.attempt.history@,
                ) == snapshot_views(old(self).attempt.history@).push(noted(self.attempt.stage)),
            decreases lines.len() - i,
        {
            let mut line = lines[i].clone();
            push_str(&mut line, "\n");
            self.queue(text_bytes(line));
            assert(Seq::new((i + 1) as nat, |k: int| line_chunk(lv[k]@)) =~= Seq::new(
                i as nat,
                |k: int| line_chunk(lv[k]@),
            ).push(line_chunk(lv[i as int]@)));
            i = i + 1;
        }
        assert(Seq::new(3, |k: int| line_chunk(lv[k]@)) =~= seq![
            line_chunk(lv[0]@),
            line_chunk(lv[1]@),
            line_chunk(lv[2]@),
        ]);
    }
}

impl ShellSession for RealShellSessionPlaceholder {
    closed spec fn spec_connected(&self) -> bool {
        self.attempt.stage == RealConnectionStage::Connected
    }

    closed spec fn pending(&self) -> Seq<Seq<u8>> {
        chunk_views(self.pending_output@)
    }

    open spec fn same_channel(&self, other: Self) -> bool {
        other.attempt == self.attempt
    }

    open spec fn wrote(&self, after: Self, bytes: Seq<u8>, r: SshResult<()>) -> bool {
        &&& r is Ok
        &&& after.attempt == self.attempt
        &&& after.pending() == self.pending().push(
            encode_utf8(buffered_input_line(self.attempt.stage, bytes)),
        ).push(
            encode_utf8(
                "Network transport is not implemented yet, so input was not sent to a remote host.\n"@,
            ),
        )
    }

    open spec fn resized(&self, after: Self, size: PtySize, r: SshResult<()>) -> bool {
        &&& r is Ok
        &&& after.attempt == (RealConnectionAttempt {
            plan: RealConnectionPlan {
                pty: PtyConfig { size, ..self.attempt.plan.pty },
                ..self.attempt.plan
            },
            ..self.attempt
        })
        &&& after.pending() == self.pending().push(encode_utf8(planned_resize_line(size, self.attempt.stage)))
    }

    open spec fn closed(&self, after: Self, r: SshResult<()>) -> bool {
        &&& r is Ok
        &&& after.attempt == (RealConnectionAttempt { stage: RealConnectionStage::Disconnected, ..self.attempt })
        &&& after.pending() == self.pending().push(
            encode_utf8(
                "real-shell scaffold marked the session as disconnected before any live transport existed.\n"@,
            ),
        )
    }

    fn kind(&self) -> (k: ChannelKind)
        ensures
            k == ChannelKind::Shell,
    {
        ChannelKind::Shell
    }

    fn is_connected(&self) -> (b: bool) {
        self.attempt.stage == RealConnectionStage::Connected
    }

    /// The front chunk; the staged shell never fails to poll.
    fn poll_output(&mut self) -> (r: SshResult<Vec<u8>>)
        ensures
            r is Ok,
            final(self).attempt == old(self).attempt,
    {
        let ghost before = self.pending();
        match self.pending_output.pop_front() {
            Some(bytes) => {
                assert(self.pending() =~= before.drop_first());
                Ok(bytes)
            },
            None => {
                assert(front_chunk(before) =~= Seq::<u8>::empty());
                Ok(Vec::new())
            },
        }
    }

    /// Queues a note that the input was buffered, and that it was not sent.
    fn write_input(&mut self, bytes: &[u8]) -> (r: SshResult<()>)
        ensures
            r is Ok,
            final(self).attempt == old(self).attempt,
            final(self).pending() == old(self).pending().push(
                encode_utf8(buffered_input_line(old(self).attempt.stage, bytes@)),
            ).push(
                encode_utf8(
                    "Network transport is not implemented yet, so input was not sent to a remote host.\n"@,
                ),
            ),
    {
        let printable = escape_carriage_returns(decode_lossy(bytes).as_str());
        let mut text = String::new();
        push_str(&mut text, "real-shell scaffold buffered input at stage `");
        push_str(&mut text, self.attempt.stage.label());
        push_str(&mut text, "`: ");
        push_str(&mut text, printable.as_str());
        push_str(&mut text, "\n");
        self.queue(text_bytes(text));
        self.queue(
            crate::text::bytes_of(
                "Network transport is not implemented yet, so input was not sent to a remote host.\n",
            ),
        );
        Ok(())
    }

    /// Records the new size in the plan and queues a note of it.
    fn resize_pty(&mut self, size: PtySize) -> (r: SshResult<()>)
        ensures
            r is Ok,
            final(self).attempt.plan.pty.size == size,
            final(self).attempt.stage == old(self).attempt.stage,
            final(self).pending() == old(self).pending().push(
                encode_utf8(planned_resize_line(size, old(self).attempt.stage)),
            ),
    {
        self.attempt.plan.pty.size = size;
        let mut text = String::new();
        push_str(&mut text, "real-shell scaffold updated planned PTY to ");
        push_decimal(&mut text, size.columns as u64);
        push_str(&mut text, "x");
        push_decimal(&mut text, size.rows as u64);
        push_str(&mut text, " while waiting at stage `");
        push_str(&mut text, self.attempt.stage.label());
        push_str(&mut text, "`.\n");
        self.queue(text_bytes(text));
        Ok(())
    }

    /// Marks the attempt disconnected and queues a note of it.
    fn disconnect(&mut self) -> (r: SshResult<()>)
        ensures
            r is Ok,
            final(self).attempt.stage == RealConnectionStage::Disconnected,
            final(self).attempt.plan == old(self).attempt.plan,
            final(self).pending() == old(self).pending().push(
                encode_utf8(
                    "real-shell scaffold marked the session as disconnected before any live transport existed.\n"@,
                ),
            ),
    {
        self.attempt.stage = RealConnectionStage::Disconnected;
        self.queue(
            crate::text::bytes_of(
                "real-shell scaffold marked the session as disconnected before any live transport existed.\n",
            ),
        );
        Ok(())
    }
}


/// A freshly opened staged shell is not connected.
pub proof fn lemma_fresh_real_shell_not_connected(c: SshConnectionConfig, s: RealShellSessionPlaceholder)
    requires
        fresh_real_shell(c, s),
    ensures
        !s.spec_connected(),
{
}

} // verus!
