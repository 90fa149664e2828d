//! SSH connection configuration, adapters and shell sessions.
pub mod auth;
pub mod channel;
pub mod client;
pub mod error;
pub mod fake;
pub mod forwarding;
pub mod host_key;
pub mod proxy;
pub mod pty;
pub mod real_transport;
