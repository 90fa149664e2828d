//! Port-forwarding configuration.
use vstd::prelude::*;

verus! {

/// Direction of a forwarded port.
#[derive(Debug, Clone, Copy, PartialEq, Eq, Structural)]
pub enum ForwardingKind {
    Local,
    Remote,
    Dynamic,
}

/// One forwarded port: where it listens and where it leads.
#[derive(Debug, Clone, PartialEq, Eq)]
pub struct TunnelConfig {
    pub kind: ForwardingKind,
    pub bind_address: String,
    pub bind_port: u16,
    pub target_host: String,
    pub target_port: u16,
}

} // verus!
