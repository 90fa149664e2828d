//! Tracing initialisation, log path templates, redaction and the texts of
//! session transcripts.
use std::time::{Duration, SystemTime, UNIX_EPOCH};
use tracing_subscriber::filter::ParseError;
use tracing_subscriber::util::TryInitError;
use tracing_subscriber::EnvFilter;
use vstd::prelude::*;

mod subscriber;

pub use subscriber::SubscriberSettings;
use subscriber::{install_compact_subscriber, install_full_subscriber};

use crate::text::{
    is_whitespace, is_whitespace_char, chars_of, decimal, decode_lossy, escape_default_text, escape_text, push_char, push_decimal,
    push_str, replace_all, replace_text, str_eq, lossy_text,
};

verus! {

#[verifier::external_type_specification]
#[verifier::external_body]
pub struct ExEnvFilter(EnvFilter);

#[verifier::external_type_specification]
#[verifier::external_body]
pub struct ExParseError(ParseError);

#[verifier::external_type_specification]
#[verifier::external_body]
pub struct ExTryInitError(TryInitError);

#[verifier::external_type_specification]
#[verifier::external_body]
pub struct ExSystemTime(SystemTime);

/// The directive string the default configuration filters with.
pub const DEFAULT_ENV_FILTER: &'static str = "yshell=info,warn";

/// Options for the process-wide tracing subscriber.
#[derive(Debug, Clone, PartialEq, Eq)]
pub struct LoggingConfig {
    env_filter: String,
    ansi: bool,
    compact: bool,
}

/// Model of the options.
pub struct LoggingConfigView {
    pub env_filter: Seq<char>,
    pub ansi: bool,
    pub compact: bool,
}

impl View for LoggingConfig {
    type V = LoggingConfigView;

    closed spec fn view(&self) -> LoggingConfigView {
        LoggingConfigView { env_filter: self.env_filter@, ansi: self.ansi, compact: self.compact }
    }
}

impl Default for LoggingConfig {
    /// The default filter, colour on, full format.
    fn default() -> (c: LoggingConfig)
        ensures
            c@ == (LoggingConfigView { env_filter: DEFAULT_ENV_FILTER@, ansi: true, compact: false }),
    {
        LoggingConfig { env_filter: DEFAULT_ENV_FILTER.to_owned(), ansi: true, compact: false }
    }
}

impl LoggingConfig {
    /// The default options with another filter directive string.
    pub fn with_env_filter(env_filter: &str) -> (c: LoggingConfig)
        ensures
            c@ == (LoggingConfigView { env_filter: env_filter@, ansi: true, compact: false }),
    {
        LoggingConfig { env_filter: env_filter.to_owned(), ansi: true, compact: false }
    }

    /// The same options with colour switched on or off.
    pub fn with_ansi(self, ansi: bool) -> (c: LoggingConfig)
        ensures
            c@ == (LoggingConfigView { ansi, ..self@ }),
    {
        let mut c = self;
        c.ansi = ansi;
        c
    }

    /// The same options in the compact format.
    pub fn compact(self) -> (c: LoggingConfig)
        ensures
            c@ == (LoggingConfigView { compact: true, ..self@ }),
    {
        let mut c = self;
        c.compact = true;
        c
    }
}

/// Why tracing could not be initialised.
#[derive(Debug)]
pub enum InitLoggingError {
    /// The filter directive string did not parse.
    InvalidFilter(ParseError),
    /// A global subscriber was already installed.
    AlreadyInitialized(TryInitError),
}

/// The display text of a filter parse error (`ParseError` as `Display`
/// prints it). Nothing is stated of the text.
#[verifier::external_body]
fn parse_error_text(e: &ParseError) -> String {
    format!("{e}")
}

/// The display text of a failed subscriber installation (`TryInitError` as
/// `Display` prints it). Nothing is stated of the text.
#[verifier::external_body]
fn try_init_error_text(e: &TryInitError) -> String {
    format!("{e}")
}

impl InitLoggingError {
    /// The display text: what failed, then the cause's own text.
    pub fn describe(&self) -> (s: String)
        ensures
            self is InvalidFilter ==> exists|t: Seq<char>| s@ == "invalid tracing filter: "@ + t,
            self is AlreadyInitialized ==> exists|t: Seq<char>| s@ == "tracing was already initialized: "@ + t,
    {
        let mut s = String::new();
        let cause = match self {
            InitLoggingError::InvalidFilter(e) => {
                push_str(&mut s, "invalid tracing filter: ");
                parse_error_text(e)
            },
            InitLoggingError::AlreadyInitialized(e) => {
                push_str(&mut s, "tracing was already initialized: ");
                try_init_error_text(e)
            },
        };
        let ghost head = s@;
        push_str(&mut s, cause.as_str());
        proof {
            reveal_strlit("invalid tracing filter: ");
            reveal_strlit("tracing was already initialized: ");
            assert(head =~= Seq::<char>::empty() + head);
        }
        s
    }
}

/// Whether `EnvFilter::try_new` accepts a directive string. It depends on the
/// string alone; the empty string is accepted.
pub uninterp spec fn env_filter_parses(directives: Seq<char>) -> bool;

/// A comma-separated piece of `s` starts at index `i` with whitespace.
pub open spec fn piece_starts_with_space(s: Seq<char>, i: int) -> bool {
    0 <= i < s.len() && (i == 0 || s[i - 1] == ',') && is_whitespace_char(s[i])
}

/// Directive strings that `EnvFilter::try_new` reads without panicking: all
/// ASCII, or with no comma-separated piece that starts with whitespace. The
/// parser walks each piece with its surrounding whitespace trimmed but slices
/// the untrimmed piece at those positions, which can fall inside a character
/// when leading whitespace comes before a non-ASCII one; such strings are
/// left out.
pub open spec fn directives_parse_safely(s: Seq<char>) -> bool {
    (forall|i: int| 0 <= i < s.len() ==> (#[trigger] s[i] as u32) < 0x80)
        || (forall|i: int| !#[trigger] piece_starts_with_space(s, i))
}

/// Whether `directives` is a string `EnvFilter::try_new` reads without
/// panicking (see `directives_parse_safely`).
pub fn filter_parses_safely(directives: &str) -> (b: bool)
    ensures
        b == directives_parse_safely(directives@),
{
    let chars = chars_of(directives);
    let mut ascii = true;
    let mut spaced = false;
    let mut i: usize = 0;
    while i < chars.len()
        invariant
            chars@ == directives@,
            i <= chars@.len(),
            ascii == (forall|j: int| 0 <= j < i ==> (#[trigger] chars@[j] as u32) < 0x80),
            spaced == (exists|j: int| 0 <= j < i && #[trigger] piece_starts_with_space(chars@, j)),
        decreases chars.len() - i,
    {
        let c = chars[i];
        if (c as u32) >= 0x80 {
            ascii = false;
        }
        if (i == 0 || chars[i - 1] == ',') && is_whitespace(c) {
            spaced = true;
            assert(piece_starts_with_space(chars@, i as int));
        }
        proof {
            if !piece_starts_with_space(chars@, i as int) {
                assert((exists|j: int| 0 <= j < i + 1 && #[trigger] piece_starts_with_space(chars@, j))
                    == (exists|j: int| 0 <= j < i && #[trigger] piece_starts_with_space(chars@, j)));
            }
        }
        i = i + 1;
    }
    ascii || !spaced
}

/// `EnvFilter::try_new`: parses comma-separated filter directives. The
/// contract claims that success is `env_filter_parses` of the text, and that
/// the empty string parses (the source returns an empty filter for it). It
/// is called only on strings the parser reads without panicking.
#[verifier::external_body]
fn parse_env_filter(directives: &str) -> (r: Result<EnvFilter, ParseError>)
    requires
        directives_parse_safely(directives@),
    ensures
        r is Ok == env_filter_parses(directives@),
        directives@.len() == 0 ==> r is Ok,
{
    EnvFilter::try_new(directives)
}

/// Initialises the process-wide tracing subscriber: a filter that does not
/// parse is reported as such, before any subscriber is touched; otherwise a
/// subscriber with the configured colour and format is installed. The ghost
/// part of the result records what the installer was handed (nothing when
/// the filter was refused).
pub fn init_tracing(config: &LoggingConfig) -> (r: (Result<(), InitLoggingError>, Ghost<Option<SubscriberSettings>>))
    requires
        directives_parse_safely(config@.env_filter),
    ensures
        !env_filter_parses(config@.env_filter) ==> (r.0 matches Err(InitLoggingError::InvalidFilter(_)))
            && r.1@ is None,
        env_filter_parses(config@.env_filter) ==> !(r.0 matches Err(InitLoggingError::InvalidFilter(_)))
            && (r.1@ matches Some(s) && s.ansi() == config@.ansi && s.compact() == config@.compact),
{
    let filter = match parse_env_filter(config.env_filter.as_str()) {
        Ok(f) => f,
        Err(e) => {
            return (Err(InitLoggingError::InvalidFilter(e)), Ghost(None));
        },
    };
    let (installed, Ghost(given)) = if config.compact {
        install_compact_subscriber(filter, config.ansi)
    } else {
        install_full_subscriber(filter, config.ansi)
    };
    let result = match installed {
        Ok(()) => Ok(()),
        Err(e) => Err(InitLoggingError::AlreadyInitialized(e)),
    };
    (result, Ghost(Some(given)))
}

/// The outcome tests see: an already installed subscriber counts as success.
pub fn settle_for_tests(r: Result<(), InitLoggingError>) -> (s: Result<(), InitLoggingError>)
    ensures
        r matches Err(InitLoggingError::InvalidFilter(_)) ==> s == r,
        !(r matches Err(InitLoggingError::InvalidFilter(_))) ==> s is Ok,
{
    match r {
        Ok(()) => Ok(()),
        Err(InitLoggingError::AlreadyInitialized(_)) => Ok(()),
        Err(e) => Err(e),
    }
}

/// The default filter is plain ASCII.
pub proof fn lemma_default_filter_parses_safely()
    ensures
        directives_parse_safely(DEFAULT_ENV_FILTER@),
{
    reveal_strlit("yshell=info,warn");
    assert forall|i: int| 0 <= i < DEFAULT_ENV_FILTER@.len() implies (#[trigger] DEFAULT_ENV_FILTER@[i] as u32)
        < 0x80 by {
        reveal_strlit("yshell=info,warn");
    }
}

/// Initialises tracing for tests (default filter, no colour); calling it again
/// succeeds too. It fails only when the default filter does not parse.
pub fn try_init_tracing_for_tests() -> (r: Result<(), InitLoggingError>)
    ensures
        r is Ok == env_filter_parses(DEFAULT_ENV_FILTER@),
{
    let config = LoggingConfig::default().with_ansi(false);
    proof {
        lemma_default_filter_parses_safely();
    }
    settle_for_tests(init_tracing(&config).0)
}

/// Characters kept in a path component; others become `_`.
pub open spec fn path_safe(c: char) -> bool {
    ('a' <= c && c <= 'z') || ('A' <= c && c <= 'Z') || ('0' <= c && c <= '9') || c == '-' || c
        == '_' || c == '.'
}

/// `value` made safe as one path component.
pub open spec fn sanitized(value: Seq<char>) -> Seq<char> {
    value.map_values(|c: char| if path_safe(c) { c } else { '_' })
}

/// Replaces every character that is not an ASCII letter, digit, `-`, `_` or
/// `.` with `_`.
pub fn sanitize_path_component(value: &str) -> (out: String)
    ensures
        out@ == sanitized(value@),
{
    let chars = chars_of(value);
    let mut out = String::new();
    let mut i: usize = 0;
    while i < chars.len()
        invariant
            i <= chars@.len(),
            chars@ == value@,
            out@ == sanitized(value@).take(i as int),
        decreases chars.len() - i,
    {
        let c = chars[i];
        let keep = ('a' <= c && c <= 'z') || ('A' <= c && c <= 'Z') || ('0' <= c && c <= '9') || c
            == '-' || c == '_' || c == '.';
        if keep {
            push_char(&mut out, c);
        } else {
            push_char(&mut out, '_');
        }
        assert(sanitized(value@).take(i + 1) =~= sanitized(value@).take(i as int).push(
            if path_safe(c) {
                c
            } else {
                '_'
            },
        ));
        i = i + 1;
    }
    assert(sanitized(value@).take(chars@.len() as int) =~= sanitized(value@));
    out
}

/// What a log path is rendered from.
#[derive(Debug, Clone, PartialEq, Eq)]
pub struct LogPathContext {
    pub session_id: String,
    pub kind: String,
    pub timestamp: u64,
}

/// `SystemTime::now`. The clock gives no promise to state.
#[verifier::external_body]
fn system_time_now() -> SystemTime {
    SystemTime::now()
}

/// `SystemTime::duration_since(UNIX_EPOCH)`, `None` for a time before the
/// epoch. The clock gives no promise to state.
#[verifier::external_body]
fn since_unix_epoch(t: &SystemTime) -> Option<Duration> {
    t.duration_since(UNIX_EPOCH).ok()
}

/// `Duration::as_secs`: whole seconds. Nothing is stated of the value.
#[verifier::external_body]
fn duration_secs(d: &Duration) -> u64 {
    d.as_secs()
}

impl LogPathContext {
    /// A context stamped with the current Unix time in seconds (0 if the
    /// clock is before the epoch).
    pub fn now(session_id: &str, kind: &str) -> (c: LogPathContext)
        ensures
            c.session_id@ == session_id@,
            c.kind@ == kind@,
    {
        let t = system_time_now();
        let elapsed = match since_unix_epoch(&t) {
            Some(d) => Some(duration_secs(&d)),
            None => None,
        };
        LogPathContext::stamped(session_id, kind, elapsed)
    }

    /// A context stamped with `elapsed_secs`, the whole seconds since the
    /// Unix epoch, or with 0 where the clock stood before the epoch (`None`).
    pub fn stamped(session_id: &str, kind: &str, elapsed_secs: Option<u64>) -> (c: LogPathContext)
        ensures
            c.session_id@ == session_id@,
            c.kind@ == kind@,
            c.timestamp == match elapsed_secs {
                Some(s) => s,
                None => 0u64,
            },
    {
        let timestamp = match elapsed_secs {
            Some(s) => s,
            None => 0,
        };
        LogPathContext { session_id: session_id.to_owned(), kind: kind.to_owned(), timestamp }
    }
}

/// A log path with `{session_id}`, `{kind}` and `{timestamp}` placeholders.
#[derive(Debug, Clone, PartialEq, Eq)]
pub struct PathTemplate(String);

impl View for PathTemplate {
    type V = Seq<char>;

    closed spec fn view(&self) -> Seq<char> {
        self.0@
    }
}

/// The rendered path: placeholders replaced in order, ids sanitised.
pub open spec fn rendered_path(template: Seq<char>, c: LogPathContext) -> Seq<char> {
    replace_all(
        replace_all(
            replace_all(template, "{session_id}"@, sanitized(c.session_id@)),
            "{kind}"@,
            sanitized(c.kind@),
        ),
        "{timestamp}"@,
        decimal(c.timestamp as nat),
    )
}

impl PathTemplate {
    /// A template with the given text.
    pub fn new(template: &str) -> (t: PathTemplate)
        ensures
            t@ == template@,
    {
        PathTemplate(template.to_owned())
    }

    /// The path text for `context`.
    pub fn render(&self, context: &LogPathContext) -> (path: String)
        ensures
            path@ == rendered_path(self@, *context),
    {
        proof {
            reveal_strlit("{session_id}");
            reveal_strlit("{kind}");
            reveal_strlit("{timestamp}");
        }
        let session = sanitize_path_component(context.session_id.as_str());
        let kind = sanitize_path_component(context.kind.as_str());
        let mut stamp = String::new();
        push_decimal(&mut stamp, context.timestamp);
        assert(stamp@ =~= decimal(context.timestamp as nat));
        let a = replace_text(self.0.as_str(), "{session_id}", session.as_str());
        let b = replace_text(a.as_str(), "{kind}", kind.as_str());
        replace_text(b.as_str(), "{timestamp}", stamp.as_str())
    }
}

/// Replaces secrets with a marker in logged text.
#[derive(Debug, PartialEq, Eq)]
pub struct Redactor {
    replacements: Vec<(String, String)>,
}

/// The marker secrets become.
pub const REDACTED_MARKER: &'static str = "[REDACTED]";

impl View for Redactor {
    type V = Seq<(Seq<char>, Seq<char>)>;

    closed spec fn view(&self) -> Seq<(Seq<char>, Seq<char>)> {
        self.replacements@.map_values(|p: (String, String)| (p.0@, p.1@))
    }
}

/// `input` after each replacement in turn.
pub open spec fn redacted(rules: Seq<(Seq<char>, Seq<char>)>, input: Seq<char>) -> Seq<char>
    decreases rules.len(),
{
    if rules.len() == 0 {
        input
    } else {
        replace_all(redacted(rules.drop_last(), input), rules.last().0, rules.last().1)
    }
}

impl Redactor {
    #[verifier::type_invariant]
    spec fn needles_non_empty(&self) -> bool {
        forall|i: int| 0 <= i < self.replacements@.len() ==> #[trigger] self.replacements@[i].0@.len() > 0
    }

    /// A redactor with no secrets.
    pub fn new() -> (r: Redactor)
        ensures
            r@ == Seq::<(Seq<char>, Seq<char>)>::empty(),
    {
        let r = Redactor { replacements: Vec::new() };
        assert(r@ =~= Seq::<(Seq<char>, Seq<char>)>::empty());
        r
    }

    /// The same redactor that also hides `secret` (an empty secret adds nothing).
    pub fn with_secret(self, secret: &str) -> (r: Redactor)
        ensures
            secret@.len() == 0 ==> r@ == self@,
            secret@.len() > 0 ==> r@ == self@.push((secret@, REDACTED_MARKER@)),
    {
        proof {
            use_type_invariant(&self);
        }
        let chars = chars_of(secret);
        if chars.len() == 0 {
            return self;
        }
        let mut replacements = self.replacements;
        let ghost before = replacements@;
        replacements.push((secret.to_owned(), REDACTED_MARKER.to_owned()));
        let r = Redactor { replacements };
        assert(r@ =~= self@.push((secret@, REDACTED_MARKER@)));
        r
    }

    /// `input` with every secret replaced by the marker.
    pub fn redact(&self, input: &str) -> (out: String)
        ensures
            out@ == redacted(self@, input@),
    {
        proof {
            use_type_invariant(self);
        }
        let mut out = input.to_owned();
        let mut i: usize = 0;
        while i < self.replacements.len()
            invariant
                i <= self.replacements@.len(),
                forall|k: int| 0 <= k < self.replacements@.len() ==> #[trigger] self.replacements@[k].0@.len() > 0,
                out@ == redacted(self@.take(i as int), input@),
            decreases self.replacements.len() - i,
        {
            assert(self@.take(i + 1).drop_last() =~= self@.take(i as int));
            assert(self@.take(i + 1).last() == self@[i as int]);
            out = replace_text(
                out.as_str(),
                self.replacements[i].0.as_str(),
                self.replacements[i].1.as_str(),
            );
            i = i + 1;
        }
        assert(self@.take(self@.len() as int) =~= self@);
        out
    }
}

impl Clone for Redactor {
    fn clone(&self) -> (r: Redactor)
        ensures
            r@ == self@,
    {
        proof {
            use_type_invariant(self);
        }
        let mut replacements: Vec<(String, String)> = Vec::new();
        let mut i: usize = 0;
        while i < self.replacements.len()
            invariant
                i <= self.replacements@.len(),
                forall|k: int| 0 <= k < self.replacements@.len() ==> #[trigger] self.replacements@[k].0@.len() > 0,
                replacements@.len() == i,
                forall|k: int| 0 <= k < i ==> #[trigger] replacements@[k] == self.replacements@[k],
            decreases self.replacements.len() - i,
        {
            let pair = (self.replacements[i].0.clone(), self.replacements[i].1.clone());
            replacements.push(pair);
            i = i + 1;
        }
        let r = Redactor { replacements };
        assert(r@ =~= self@);
        r
    }
}

impl Default for Redactor {
    fn default() -> (r: Redactor)
        ensures
            r@ == Seq::<(Seq<char>, Seq<char>)>::empty(),
    {
        Redactor::new()
    }
}

/// Whether transcripts keep content as is or redact it.
#[derive(Debug, Clone, Copy, PartialEq, Eq, Structural)]
pub enum TranscriptFormat {
    Raw,
    Sanitized,
}

/// Which way transcript content went.
#[derive(Debug, Clone, Copy, PartialEq, Eq, Structural)]
pub enum TranscriptDirection {
    Input,
    Output,
}

pub open spec fn direction_name(d: TranscriptDirection) -> Seq<char> {
    match d {
        TranscriptDirection::Input => "input"@,
        TranscriptDirection::Output => "output"@,
    }
}

impl TranscriptDirection {
    /// The direction's name in transcripts.
    pub fn as_str(self) -> (s: &'static str)
        ensures
            s@ == direction_name(self),
    {
        match self {
            TranscriptDirection::Input => "input",
            TranscriptDirection::Output => "output",
        }
    }
}

/// One transcript line (without its newline): the direction, a tab, and the
/// content decoded from UTF-8 (lossily), redacted when sanitised, then escaped.
pub open spec fn transcript_text(
    format: TranscriptFormat,
    rules: Seq<(Seq<char>, Seq<char>)>,
    direction: TranscriptDirection,
    bytes: Seq<u8>,
) -> Seq<char> {
    let content = match format {
        TranscriptFormat::Raw => lossy_text(bytes),
        TranscriptFormat::Sanitized => redacted(rules, lossy_text(bytes)),
    };
    direction_name(direction) + "\t"@ + escape_text(content)
}

/// The transcript line for `bytes` (see `transcript_text`).
pub fn transcript_line(
    format: TranscriptFormat,
    redactor: &Redactor,
    direction: TranscriptDirection,
    bytes: &[u8],
) -> (line: String)
    ensures
        line@ == transcript_text(format, redactor@, direction, bytes@),
{
    let decoded = decode_lossy(bytes);
    let content = match format {
        TranscriptFormat::Raw => decoded,
        TranscriptFormat::Sanitized => redactor.redact(decoded.as_str()),
    };
    let mut line = String::new();
    push_str(&mut line, direction.as_str());
    push_str(&mut line, "\t");
    let escaped = escape_default_text(content.as_str());
    push_str(&mut line, escaped.as_str());
    line
}

/// When a session log is rotated and how many old files are kept.
#[derive(Debug, Clone, PartialEq, Eq)]
pub struct RotationPolicy {
    pub max_bytes: u64,
    pub keep: usize,
}

impl RotationPolicy {
    /// A policy that never rotates.
    pub fn disabled() -> (p: RotationPolicy)
        ensures
            p.max_bytes == u64::MAX,
            p.keep == 0,
    {
        RotationPolicy { max_bytes: u64::MAX, keep: 0 }
    }

    /// Whether a log of `current_len` bytes must rotate before `incoming`
    /// more bytes: never when rotation is disabled (no limit or nothing
    /// kept), else when the total would pass the limit.
    pub fn rotation_due(&self, current_len: u64, incoming: u64) -> (due: bool)
        ensures
            due == (self.max_bytes != u64::MAX && self.keep != 0 && current_len + incoming
                > self.max_bytes),
    {
        if self.max_bytes == u64::MAX || self.keep == 0 {
            return false;
        }
        match current_len.checked_add(incoming) {
            Some(total) => total > self.max_bytes,
            None => true,
        }
    }
}

/// One file operation of a rotation.
#[derive(Debug, Clone, Copy, PartialEq, Eq, Structural)]
pub enum RotationStep {
    /// Delete the oldest kept file, `path.index`.
    Remove { index: usize },
    /// Move `path.from` to `path.to`.
    Rename { from: usize, to: usize },
}

/// The step for kept file `index` when `keep` files are kept: the oldest is
/// removed, the others move one place up.
pub open spec fn rotation_step(keep: nat, index: nat) -> RotationStep {
    if index == keep {
        RotationStep::Remove { index: index as usize }
    } else {
        RotationStep::Rename { from: index as usize, to: (index + 1) as usize }
    }
}

/// The steps, from the oldest kept file down to `path.1`, that make room for
/// the current log to become `path.1` (each applies only where its source
/// exists).
pub fn rotation_steps(keep: usize) -> (steps: Vec<RotationStep>)
    requires
        keep < usize::MAX,
    ensures
        steps@.len() == keep,
        forall|k: int| 0 <= k < keep ==> #[trigger] steps@[k] == rotation_step(keep as nat, (keep - k) as nat),
{
    let mut steps: Vec<RotationStep> = Vec::new();
    let mut index = keep;
    while index > 0
        invariant
            index <= keep < usize::MAX,
            steps@.len() == keep - index,
            forall|k: int| 0 <= k < keep - index ==> #[trigger] steps@[k] == rotation_step(keep as nat, (keep - k) as nat),
        decreases index,
    {
        if index == keep {
            steps.push(RotationStep::Remove { index });
        } else {
            steps.push(RotationStep::Rename { from: index, to: index + 1 });
        }
        index = index - 1;
    }
    steps
}

/// The path of kept file `index`: the log's path, a dot and the index.
pub fn rotated_path(path: &str, index: usize) -> (p: String)
    ensures
        p@ == path@ + "."@ + decimal(index as nat),
{
    let mut p = String::new();
    push_str(&mut p, path);
    push_str(&mut p, ".");
    push_decimal(&mut p, index as u64);
    p
}

/// The line a transfer log records.
pub fn transfer_line(operation: &str, local_path: &str, remote_path: &str, bytes: u64) -> (line:
    String)
    ensures
        line@ == "operation="@ + operation@ + " local="@ + local_path@ + " remote="@ + remote_path@
            + " bytes="@ + decimal(bytes as nat),
{
    let mut line = String::new();
    push_str(&mut line, "operation=");
    push_str(&mut line, operation);
    push_str(&mut line, " local=");
    push_str(&mut line, local_path);
    push_str(&mut line, " remote=");
    push_str(&mut line, remote_path);
    push_str(&mut line, " bytes=");
    push_decimal(&mut line, bytes);
    line
}

/// A secret logged on its own through a redactor that knows it comes out as
/// the marker alone.
pub proof fn law_lone_secret_is_redacted(secret: Seq<char>)
    requires
        secret.len() > 0,
    ensures
        redacted(seq![(secret, REDACTED_MARKER@)], secret) == REDACTED_MARKER@,
{
    let rules = seq![(secret, REDACTED_MARKER@)];
    assert(rules.drop_last() =~= Seq::<(Seq<char>, Seq<char>)>::empty());
    assert(secret.take(secret.len() as int) =~= secret);
    assert(secret.skip(secret.len() as int) =~= Seq::<char>::empty());
    assert(replace_all(Seq::<char>::empty(), secret, REDACTED_MARKER@) == Seq::<char>::empty());
    assert(REDACTED_MARKER@ + Seq::<char>::empty() =~= REDACTED_MARKER@);
    assert(replace_all(secret, secret, REDACTED_MARKER@) == REDACTED_MARKER@);
    assert(redacted(rules.drop_last(), secret) == secret);
    assert(rules.last() == (secret, REDACTED_MARKER@));
}

} // verus!
