//! A remote file opened for editing through a local temporary copy.
use vstd::prelude::*;

verus! {

/// A remote file and the local temporary file that mirrors it.
#[derive(Debug, Clone, PartialEq, Eq)]
pub struct RemoteEditSession {
    pub remote_path: String,
    pub local_temp_path: String,
}

} // verus!
