//! YShell: an SSH terminal and SFTP client model, verified with Verus.
use vstd::prelude::*;

pub mod config;
pub mod logging;
pub mod runtime;
pub mod secret;
pub mod session;
pub mod sftp;
pub mod ssh;
pub mod terminal;
pub mod test_support;
pub mod text;

