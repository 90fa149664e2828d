//! Remote file browsing, transfers and the in-memory SFTP backend.

pub mod error;
pub mod fs_entry;
pub mod remote_edit;
pub mod transfer_queue;
pub mod transfer_task;
pub mod client;
