//! Host-key verification policy and fingerprints.
use vstd::prelude::*;

verus! {

/// A host key's algorithm and fingerprint.
#[derive(Debug, Clone, PartialEq, Eq)]
pub struct HostKeyFingerprint {
    pub algorithm: String,
    pub fingerprint: String,
}

/// How presented host keys are checked.
#[derive(Debug, Clone, Copy, PartialEq, Eq, Structural)]
pub enum HostKeyPolicy {
    Strict,
    TrustOnFirstUse,
    AcceptAnyForTesting,
}

pub open spec fn host_key_label(p: HostKeyPolicy) -> Seq<char> {
    match p {
        HostKeyPolicy::Strict => "strict"@,
        HostKeyPolicy::TrustOnFirstUse => "tofu"@,
        HostKeyPolicy::AcceptAnyForTesting => "accept-any-for-testing"@,
    }
}

impl HostKeyPolicy {
    /// Short name shown in connection plans.
    pub fn label(&self) -> (s: &'static str)
        ensures
            s@ == host_key_label(*self),
    {
        match self {
            HostKeyPolicy::Strict => "strict",
            HostKeyPolicy::TrustOnFirstUse => "tofu",
            HostKeyPolicy::AcceptAnyForTesting => "accept-any-for-testing",
        }
    }
}

} // verus!
