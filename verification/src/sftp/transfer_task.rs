//! Transfer task model.
use vstd::prelude::*;

verus! {

/// Which way a transfer moves data.
#[derive(Debug, Clone, Copy, PartialEq, Eq, Structural)]
pub enum TransferDirection {
    Upload,
    Download,
}

/// Life-cycle state of a transfer.
#[derive(Debug, Clone, Copy, PartialEq, Eq, Structural)]
pub enum TransferStatus {
    Queued,
    Running,
    Completed,
    Failed,
    Cancelled,
}

/// Retries a new task allows.
pub const DEFAULT_MAX_RETRIES: u8 = 3;

/// One upload or download with its progress and retry bookkeeping.
#[derive(Debug, PartialEq, Eq)]
pub struct TransferTask {
    pub id: String,
    pub direction: TransferDirection,
    pub source_path: String,
    pub destination_path: String,
    pub bytes_done: u64,
    pub total_bytes: Option<u64>,
    pub status: TransferStatus,
    pub retry_count: u8,
    pub max_retries: u8,
    pub last_error: Option<String>,
}

/// Model of a task, its texts as character sequences.
pub struct TransferTaskView {
    pub id: Seq<char>,
    pub direction: TransferDirection,
    pub source_path: Seq<char>,
    pub destination_path: Seq<char>,
    pub bytes_done: u64,
    pub total_bytes: Option<u64>,
    pub status: TransferStatus,
    pub retry_count: u8,
    pub max_retries: u8,
    pub last_error: Option<Seq<char>>,
}

pub open spec fn opt_text(s: Option<String>) -> Option<Seq<char>> {
    match s {
        Some(t) => Some(t@),
        None => None,
    }
}

impl View for TransferTask {
    type V = TransferTaskView;

    open spec fn view(&self) -> TransferTaskView {
        TransferTaskView {
            id: self.id@,
            direction: self.direction,
            source_path: self.source_path@,
            destination_path: self.destination_path@,
            bytes_done: self.bytes_done,
            total_bytes: self.total_bytes,
            status: self.status,
            retry_count: self.retry_count,
            max_retries: self.max_retries,
            last_error: opt_text(self.last_error),
        }
    }
}

/// Completion in whole percent: `None` without a known size, 100 for an
/// empty transfer, else `bytes_done * 100 / total` (the product saturating at
/// `u64::MAX`) capped at 100.
pub open spec fn percent_of(bytes_done: u64, total_bytes: Option<u64>) -> Option<u8> {
    match total_bytes {
        None => None,
        Some(total) => if total == 0 {
            Some(100)
        } else {
            let scaled = if bytes_done * 100 > u64::MAX {
                u64::MAX as int
            } else {
                bytes_done * 100
            };
            let p = scaled / (total as int);
            Some(if p > 100 {
                100
            } else {
                p as u8
            })
        },
    }
}

impl TransferTask {
    /// A queued task with no progress, no retries used and the default retry
    /// allowance.
    pub fn new(
        id: &str,
        direction: TransferDirection,
        source_path: &str,
        destination_path: &str,
        total_bytes: Option<u64>,
    ) -> (t: TransferTask)
        ensures
            t@ == (TransferTaskView {
                id: id@,
                direction,
                source_path: source_path@,
                destination_path: destination_path@,
                bytes_done: 0,
                total_bytes,
                status: TransferStatus::Queued,
                retry_count: 0,
                max_retries: DEFAULT_MAX_RETRIES,
                last_error: None,
            }),
    {
        TransferTask {
            id: id.to_owned(),
            direction,
            source_path: source_path.to_owned(),
            destination_path: destination_path.to_owned(),
            bytes_done: 0,
            total_bytes,
            status: TransferStatus::Queued,
            retry_count: 0,
            max_retries: DEFAULT_MAX_RETRIES,
            last_error: None,
        }
    }

    /// Completion in whole percent (see `percent_of`).
    pub fn progress_percent(&self) -> (p: Option<u8>)
        ensures
            p == percent_of(self.bytes_done, self.total_bytes),
    {
        let total = match self.total_bytes {
            Some(total) => total,
            None => {
                return None;
            },
        };
        if total == 0 {
            return Some(100);
        }
        let scaled: u64 = match self.bytes_done.checked_mul(100) {
            Some(v) => v,
            None => u64::MAX,
        };
        let p = scaled / total;
        if p > 100 {
            Some(100)
        } else {
            Some(p as u8)
        }
    }
}

impl Clone for TransferTask {
    fn clone(&self) -> (c: TransferTask)
        ensures
            c@ == self@,
    {
        TransferTask {
            id: self.id.clone(),
            direction: self.direction,
            source_path: self.source_path.clone(),
            destination_path: self.destination_path.clone(),
            bytes_done: self.bytes_done,
            total_bytes: self.total_bytes,
            status: self.status,
            retry_count: self.retry_count,
            max_retries: self.max_retries,
            last_error: match &self.last_error {
                Some(e) => Some(e.clone()),
                None => None,
            },
        }
    }
}

} // verus!
