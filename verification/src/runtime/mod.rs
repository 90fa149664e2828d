//! The application runtime: session runtimes that own a terminal and a shell,
//! and the state machine behind the UI's commands and projection.
pub mod app_runtime;
pub mod bootstrap;
pub mod error;
pub mod session_runtime;
