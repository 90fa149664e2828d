//! UI-independent session/tab state, workspace split models, command
//! dispatching and task supervision.
pub mod command_dispatcher;
pub mod session_event;
pub mod session_handle;
pub mod session_manager;
pub mod task_supervisor;
pub mod workspace_layout;
