//! Transfer queue state machine.
use vstd::prelude::*;

use crate::sftp::error::{SftpError, SftpErrorKind, SftpErrorView, SftpResult};
use crate::sftp::transfer_task::{TransferStatus, TransferTask, TransferTaskView};
use crate::text::{push_str, str_eq};

verus! {

/// Transfers in the order they were queued.
#[derive(Debug, PartialEq, Eq)]
pub struct TransferQueue {
    pub tasks: Vec<TransferTask>,
}

pub open spec fn task_views(tasks: Seq<TransferTask>) -> Seq<TransferTaskView> {
    tasks.map_values(|t: TransferTask| t@)
}

impl View for TransferQueue {
    type V = Seq<TransferTaskView>;

    open spec fn view(&self) -> Seq<TransferTaskView> {
        task_views(self.tasks@)
    }
}

/// Index of the first task satisfying `pred`.
pub open spec fn first_where(
    s: Seq<TransferTaskView>,
    pred: spec_fn(TransferTaskView) -> bool,
) -> Option<nat> {
    if exists|i: int| 0 <= i < s.len() && pred(s[i]) {
        let i = choose|i: int|
            0 <= i < s.len() && pred(s[i]) && forall|j: int| 0 <= j < i ==> !pred(s[j]);
        Some(i as nat)
    } else {
        None
    }
}

/// Index of the first task with the given id.
pub open spec fn task_index(s: Seq<TransferTaskView>, id: Seq<char>) -> Option<nat> {
    first_where(s, |t: TransferTaskView| t.id == id)
}

/// Index of the first queued task.
pub open spec fn first_queued(s: Seq<TransferTaskView>) -> Option<nat> {
    first_where(s, |t: TransferTaskView| t.status == TransferStatus::Queued)
}

/// The error for an id that names no task.
pub open spec fn unknown_transfer(id: Seq<char>) -> SftpErrorView {
    SftpErrorView { kind: SftpErrorKind::NotFound, message: "unknown transfer "@ + id }
}

/// Progress recorded for a task: capped at the total when it is known, and
/// the task completes once the total is reached.
pub open spec fn with_progress(t: TransferTaskView, bytes_done: u64) -> TransferTaskView {
    let done = match t.total_bytes {
        Some(total) => if bytes_done < total {
            bytes_done
        } else {
            total
        },
        None => bytes_done,
    };
    TransferTaskView {
        bytes_done: done,
        status: match t.total_bytes {
            Some(total) => if done >= total {
                TransferStatus::Completed
            } else {
                t.status
            },
            None => t.status,
        },
        ..t
    }
}

/// Whether a retry is allowed: the task failed and has retries left.
pub open spec fn can_retry(t: TransferTaskView) -> bool {
    t.status == TransferStatus::Failed && t.retry_count < t.max_retries
}

/// A retried task: queued again, one more retry used, error cleared.
pub open spec fn retried(t: TransferTaskView) -> TransferTaskView {
    TransferTaskView {
        retry_count: (t.retry_count + 1) as u8,
        status: TransferStatus::Queued,
        last_error: None,
        ..t
    }
}

proof fn lemma_first_where(s: Seq<TransferTaskView>, pred: spec_fn(TransferTaskView) -> bool, i: int)
    requires
        0 <= i < s.len(),
        pred(s[i]),
        forall|j: int| 0 <= j < i ==> !pred(s[j]),
    ensures
        first_where(s, pred) == Some(i as nat),
{
    let k = choose|k: int|
        0 <= k < s.len() && pred(s[k]) && forall|j: int| 0 <= j < k ==> !pred(s[j]);
    assert(exists|k: int|
        0 <= k < s.len() && pred(s[k]) && forall|j: int| 0 <= j < k ==> !pred(s[j]));
    if k < i {
        assert(!pred(s[k]));
    } else if i < k {
        assert(!pred(s[i]));
    }
}

impl TransferQueue {
    /// An empty queue.
    pub fn new() -> (q: TransferQueue)
        ensures
            q@ == Seq::<TransferTaskView>::empty(),
    {
        let q = TransferQueue { tasks: Vec::new() };
        assert(q@ =~= Seq::<TransferTaskView>::empty());
        q
    }

    /// Adds a task at the end of the queue.
    pub fn enqueue(&mut self, task: TransferTask)
        ensures
            final(self)@ == old(self)@.push(task@),
    {
        let ghost t = task@;
        self.tasks.push(task);
        assert(self@ =~= old(self)@.push(t));
    }

    /// Position of the first task with the given id.
    fn position(&self, id: &str) -> (r: Option<usize>)
        ensures
            match r {
                Some(i) => task_index(self@, id@) == Some(i as nat) && i < self.tasks@.len(),
                None => task_index(self@, id@) is None,
            },
    {
        let mut i: usize = 0;
        while i < self.tasks.len()
            invariant
                i <= self.tasks@.len(),
                forall|j: int| 0 <= j < i ==> self@[j].id != id@,
            decreases self.tasks.len() - i,
        {
            if str_eq(self.tasks[i].id.as_str(), id) {
                proof {
                    lemma_first_where(self@, |t: TransferTaskView| t.id == id@, i as int);
                }
                return Some(i);
            }
            i = i + 1;
        }
        assert(!exists|k: int| 0 <= k < self@.len() && self@[k].id == id@);
        None
    }

    /// Marks the first queued task as running and returns it; `None` when no
    /// task is queued.
    pub fn start_next(&mut self) -> (r: Option<&TransferTask>)
        ensures
            match first_queued(old(self)@) {
                Some(i) => (r matches Some(t) && t@ == final(self)@[i as int]) && final(self)@
                    == old(self)@.update(
                    i as int,
                    TransferTaskView { status: TransferStatus::Running, ..old(self)@[i as int] },
                ),
                None => r is None && final(self)@ == old(self)@,
            },
    {
        let mut i: usize = 0;
        while i < self.tasks.len()
            invariant
                i <= self.tasks@.len(),
                self@ == old(self)@,
                forall|j: int| 0 <= j < i ==> self@[j].status != TransferStatus::Queued,
            decreases self.tasks.len() - i,
        {
            if self.tasks[i].status == TransferStatus::Queued {
                proof {
                    lemma_first_where(
                        self@,
                        |t: TransferTaskView| t.status == TransferStatus::Queued,
                        i as int,
                    );
                }
                let mut task = self.tasks.remove(i);
                task.status = TransferStatus::Running;
                let ghost tv = task@;
                self.tasks.insert(i, task);
                assert(self@ =~= old(self)@.update(i as int, tv));
                return Some(&self.tasks[i]);
            }
            i = i + 1;
        }
        assert(!exists|k: int|
            0 <= k < self@.len() && self@[k].status == TransferStatus::Queued);
        None
    }

    /// Replaces the task at `i` through `f`'s model.
    fn replace_at(&mut self, i: usize, task: TransferTask)
        requires
            i < old(self).tasks@.len(),
        ensures
            final(self)@ == old(self)@.update(i as int, task@),
    {
        let ghost tv = task@;
        self.tasks.set(i, task);
        assert(self@ =~= old(self)@.update(i as int, tv));
    }

    /// The error for an unknown id.
    fn unknown(id: &str) -> (e: SftpError)
        ensures
            e@ == unknown_transfer(id@),
    {
        let mut message = String::new();
        push_str(&mut message, "unknown transfer ");
        push_str(&mut message, id);
        SftpError::with_message(SftpErrorKind::NotFound, message)
    }

    /// Records progress for a task (see `with_progress`).
    pub fn update_progress(&mut self, id: &str, bytes_done: u64) -> (r: SftpResult<()>)
        ensures
            match task_index(old(self)@, id@) {
                Some(i) => r is Ok && final(self)@ == old(self)@.update(
                    i as int,
                    with_progress(old(self)@[i as int], bytes_done),
                ),
                None => r matches Err(e) && e@ == unknown_transfer(id@) && final(self)@ == old(self)@,
            },
    {
        let i = match self.position(id) {
            Some(i) => i,
            None => {
                return Err(Self::unknown(id));
            },
        };
        let mut task = self.tasks[i].clone();
        task.bytes_done = match task.total_bytes {
            Some(total) => if bytes_done < total {
                bytes_done
            } else {
                total
            },
            None => bytes_done,
        };
        match task.total_bytes {
            Some(total) => {
                if task.bytes_done >= total {
                    task.status = TransferStatus::Completed;
                }
            },
            None => {},
        }
        self.replace_at(i, task);
        Ok(())
    }

    /// Marks a task failed with `reason` as its last error.
    pub fn fail(&mut self, id: &str, reason: &str) -> (r: SftpResult<()>)
        ensures
            match task_index(old(self)@, id@) {
                Some(i) => r is Ok && final(self)@ == old(self)@.update(
                    i as int,
                    TransferTaskView {
                        status: TransferStatus::Failed,
                        last_error: Some(reason@),
                        ..old(self)@[i as int]
                    },
                ),
                None => r matches Err(e) && e@ == unknown_transfer(id@) && final(self)@ == old(self)@,
            },
    {
        let i = match self.position(id) {
            Some(i) => i,
            None => {
                return Err(Self::unknown(id));
            },
        };
        let mut task = self.tasks[i].clone();
        task.status = TransferStatus::Failed;
        task.last_error = Some(reason.to_owned());
        self.replace_at(i, task);
        Ok(())
    }

    /// Queues a failed task again if it has retries left; `Ok(false)` and no
    /// change otherwise.
    pub fn retry(&mut self, id: &str) -> (r: SftpResult<bool>)
        ensures
            match task_index(old(self)@, id@) {
                Some(i) => r == Ok::<bool, SftpError>(can_retry(old(self)@[i as int]))
                    && final(self)@ == if can_retry(old(self)@[i as int]) {
                    old(self)@.update(i as int, retried(old(self)@[i as int]))
                } else {
                    old(self)@
                },
                None => r matches Err(e) && e@ == unknown_transfer(id@) && final(self)@ == old(self)@,
            },
    {
        let i = match self.position(id) {
            Some(i) => i,
            None => {
                return Err(Self::unknown(id));
            },
        };
        if self.tasks[i].status != TransferStatus::Failed || self.tasks[i].retry_count
            >= self.tasks[i].max_retries {
            return Ok(false);
        }
        let mut task = self.tasks[i].clone();
        task.retry_count = task.retry_count + 1;
        task.status = TransferStatus::Queued;
        task.last_error = None;
        self.replace_at(i, task);
        Ok(true)
    }

    /// Marks a task cancelled.
    pub fn cancel(&mut self, id: &str) -> (r: SftpResult<()>)
        ensures
            match task_index(old(self)@, id@) {
                Some(i) => r is Ok && final(self)@ == old(self)@.update(
                    i as int,
                    TransferTaskView { status: TransferStatus::Cancelled, ..old(self)@[i as int] },
                ),
                None => r matches Err(e) && e@ == unknown_transfer(id@) && final(self)@ == old(self)@,
            },
    {
        let i = match self.position(id) {
            Some(i) => i,
            None => {
                return Err(Self::unknown(id));
            },
        };
        let mut task = self.tasks[i].clone();
        task.status = TransferStatus::Cancelled;
        self.replace_at(i, task);
        Ok(())
    }
}

impl Default for TransferQueue {
    fn default() -> (q: TransferQueue)
        ensures
            q@ == Seq::<TransferTaskView>::empty(),
    {
        TransferQueue::new()
    }
}

/// A task respects its bounds: no more retries used than allowed, and no more
/// bytes done than its known total.
pub open spec fn task_in_bounds(t: TransferTaskView) -> bool {
    &&& t.retry_count <= t.max_retries
    &&& (t.total_bytes matches Some(total) ==> t.bytes_done <= total)
}

/// Recording progress and retrying keep a task within its bounds: progress
/// never passes the known total and retries never pass the allowance.
pub proof fn law_bounds_kept(t: TransferTaskView, bytes_done: u64)
    requires
        task_in_bounds(t),
    ensures
        task_in_bounds(with_progress(t, bytes_done)),
        can_retry(t) ==> task_in_bounds(retried(t)),
{
}

/// Progress that reaches a known total completes the task, and then reports
/// 100 percent (for totals whose percentage product fits in 64 bits).
pub proof fn law_full_progress_completes(t: TransferTaskView, total: u64)
    requires
        t.total_bytes == Some(total),
        total * 100 <= u64::MAX,
    ensures
        with_progress(t, total).status == TransferStatus::Completed,
        crate::sftp::transfer_task::percent_of(
            with_progress(t, total).bytes_done,
            with_progress(t, total).total_bytes,
        ) == Some(100u8),
{
    if total > 0 {
        assert((total * 100) / (total as int) == 100) by (nonlinear_arith)
            requires
                total > 0,
        ;
    }
}

/// A retry that is allowed puts the failed task back in the queue: it is
/// queued again with one more retry used and no error, everything else kept,
/// so the next `start_next` picks it unless an earlier task is queued.
pub proof fn law_retry_requeues(q: Seq<TransferTaskView>, i: int)
    requires
        0 <= i < q.len(),
        can_retry(q[i]),
    ensures
        ({
            let t = q[i];
            let after = q.update(i, retried(t));
            &&& after[i].status == TransferStatus::Queued
            &&& after[i].retry_count == t.retry_count + 1
            &&& after[i].last_error is None
            &&& after[i].id == t.id && after[i].direction == t.direction
            &&& after[i].source_path == t.source_path && after[i].destination_path == t.destination_path
            &&& after[i].bytes_done == t.bytes_done && after[i].total_bytes == t.total_bytes
            &&& after[i].max_retries == t.max_retries
            &&& first_queued(after) is Some
            &&& (forall|j: int| 0 <= j < i ==> q[j].status != TransferStatus::Queued) ==> first_queued(
                after,
            ) == Some(i as nat)
        }),
{
    let after = q.update(i, retried(q[i]));
    assert(after[i].status == TransferStatus::Queued);
    let pred = |t: TransferTaskView| t.status == TransferStatus::Queued;
    assert(pred(after[i]));
    assert(exists|k: int| 0 <= k < after.len() && pred(after[k]));
    if forall|j: int| 0 <= j < i ==> q[j].status != TransferStatus::Queued {
        assert forall|j: int| 0 <= j < i implies !pred(after[j]) by {
            assert(after[j] == q[j]);
        }
        lemma_first_where(after, pred, i);
    }
}

/// A retry succeeds at most `max_retries` times in a row of failures: after
/// `max_retries` retries a failed task cannot be retried again.
pub proof fn law_retries_exhaust(t: TransferTaskView)
    requires
        t.retry_count == t.max_retries,
    ensures
        !can_retry(t),
{
}

proof fn lemma_earliest_exists(s: Seq<TransferTaskView>, pred: spec_fn(TransferTaskView) -> bool, k: int)
    requires
        0 <= k < s.len(),
        pred(s[k]),
    ensures
        exists|i: int| 0 <= i < s.len() && pred(s[i]) && forall|j: int| 0 <= j < i ==> !pred(s[j]),
    decreases k,
{
    if exists|j: int| 0 <= j < k && pred(s[j]) {
        let j = choose|j: int| 0 <= j < k && pred(s[j]);
        lemma_earliest_exists(s, pred, j);
    } else {
        assert(forall|j: int| 0 <= j < k ==> !pred(s[j]));
    }
}

proof fn lemma_first_where_found(s: Seq<TransferTaskView>, pred: spec_fn(TransferTaskView) -> bool)
    ensures
        first_where(s, pred) matches Some(i) ==> i < s.len() && pred(s[i as int]) && forall|j: int|
            0 <= j < i ==> !pred(s[j]),
        first_where(s, pred) is None ==> forall|j: int| 0 <= j < s.len() ==> !pred(s[j]),
{
    if exists|i: int| 0 <= i < s.len() && pred(s[i]) {
        let k = choose|i: int| 0 <= i < s.len() && pred(s[i]);
        lemma_earliest_exists(s, pred, k);
    }
}

/// `start_next` picks the earliest queued task: a picked index holds a queued
/// task and no earlier task is queued; nothing is picked when no task is queued.
pub proof fn law_first_queued_is_earliest(q: Seq<TransferTaskView>)
    ensures
        first_queued(q) matches Some(i) ==> i < q.len() && q[i as int].status == TransferStatus::Queued
            && forall|j: int| 0 <= j < i ==> q[j].status != TransferStatus::Queued,
        first_queued(q) is None ==> forall|j: int| 0 <= j < q.len() ==> q[j].status
            != TransferStatus::Queued,
{
    lemma_first_where_found(q, |t: TransferTaskView| t.status == TransferStatus::Queued);
}

/// Tasks are found by id: a found index holds the first task with that id;
/// nothing is found when no task has it.
pub proof fn law_task_index_finds_first(q: Seq<TransferTaskView>, id: Seq<char>)
    ensures
        task_index(q, id) matches Some(i) ==> i < q.len() && q[i as int].id == id && forall|j: int|
            0 <= j < i ==> q[j].id != id,
        task_index(q, id) is None ==> forall|j: int| 0 <= j < q.len() ==> q[j].id != id,
{
    lemma_first_where_found(q, |t: TransferTaskView| t.id == id);
}

/// Recording progress sets the bytes done to the amount given, capped at a
/// known total; reaching the total completes the task. Nothing else changes.
pub proof fn law_progress_records_bytes(t: TransferTaskView, bytes_done: u64)
    ensures
        t.total_bytes is None ==> with_progress(t, bytes_done) == (TransferTaskView { bytes_done, ..t }),
        t.total_bytes matches Some(total) ==> (bytes_done < total ==> with_progress(t, bytes_done)
            == (TransferTaskView { bytes_done, ..t })),
        t.total_bytes matches Some(total) ==> (bytes_done >= total ==> with_progress(t, bytes_done)
            == (TransferTaskView { bytes_done: total, status: TransferStatus::Completed, ..t })),
{
}

/// Only a failed task with retries left can be retried; a task that failed
/// with retries left is retried into the queue with its error cleared.
pub proof fn law_fail_then_retry(t: TransferTaskView, reason: Seq<char>)
    ensures
        t.status != TransferStatus::Failed ==> !can_retry(t),
        t.retry_count >= t.max_retries ==> !can_retry(t),
        ({
            let failed = TransferTaskView {
                status: TransferStatus::Failed,
                last_error: Some(reason),
                ..t
            };
            t.retry_count < t.max_retries ==> can_retry(failed) && retried(failed) == (TransferTaskView {
                status: TransferStatus::Queued,
                last_error: None,
                retry_count: (t.retry_count + 1) as u8,
                ..t
            })
        }),
{
}

} // verus!
