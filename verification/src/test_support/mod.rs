//! Helpers shared by tests: an in-memory secret store, fixtures and a
//! placeholder SSH server handle.
pub mod fake_secret_store;
pub mod fixtures;
pub mod ssh_server;
