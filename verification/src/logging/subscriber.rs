//! Installing the global tracing subscriber.
use tracing_subscriber::layer::SubscriberExt;
use tracing_subscriber::util::{SubscriberInitExt, TryInitError};
use tracing_subscriber::EnvFilter;
use vstd::prelude::*;

verus! {

/// What a subscriber installer reports it was handed: colour on or off, and
/// the compact or the full format. Its fields are private to this module, so
/// executable code elsewhere gets one only from the installers below.
#[derive(Debug, Clone, Copy, PartialEq, Eq)]
pub struct SubscriberSettings {
    ansi: bool,
    compact: bool,
}

impl SubscriberSettings {
    /// Whether the installed format writes colour codes.
    pub closed spec fn ansi(self) -> bool {
        self.ansi
    }

    /// Whether the installed format is the compact one.
    pub closed spec fn compact(self) -> bool {
        self.compact
    }
}

/// Installs a registry with `filter` and a compact formatting layer (colour
/// as `ansi` says) as the global subscriber (`SubscriberInitExt::try_init`).
/// Whether it succeeds depends on whether a global subscriber exists already,
/// so nothing is claimed of that result; the ghost record is what was handed
/// to the installer.
#[verifier::external_body]
pub(crate) fn install_compact_subscriber(filter: EnvFilter, ansi: bool) -> (r: (Result<(), TryInitError>, Ghost<SubscriberSettings>))
    ensures
        r.1@.ansi() == ansi,
        r.1@.compact(),
{
    let layer = tracing_subscriber::fmt::layer().with_ansi(ansi).with_target(true).compact();
    (tracing_subscriber::registry().with(filter).with(layer).try_init(), Ghost(SubscriberSettings { ansi, compact: true }))
}

/// Installs a registry with `filter` and a full formatting layer (colour as
/// `ansi` says) as the global subscriber. Nothing is claimed of the result,
/// which depends on process state; the ghost record is what was handed to
/// the installer.
#[verifier::external_body]
pub(crate) fn install_full_subscriber(filter: EnvFilter, ansi: bool) -> (r: (Result<(), TryInitError>, Ghost<SubscriberSettings>))
    ensures
        r.1@.ansi() == ansi,
        !r.1@.compact(),
{
    let layer = tracing_subscriber::fmt::layer().with_ansi(ansi).with_target(true);
    (tracing_subscriber::registry().with(filter).with(layer).try_init(), Ghost(SubscriberSettings { ansi, compact: false }))
}

} // verus!
