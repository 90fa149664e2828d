//! Registry of supervised background tasks.
use vstd::prelude::*;

use crate::text::{index_in, lemma_index_in};

verus! {

/// Identifier for a supervised background task.
#[derive(Debug, PartialEq, Eq, Hash, PartialOrd, Ord)]
pub struct TaskId(String);

impl View for TaskId {
    type V = Seq<char>;

    closed spec fn view(&self) -> Seq<char> {
        self.0@
    }
}

impl TaskId {
    /// A task identifier with the given text.
    pub fn new(value: &str) -> (id: TaskId)
        ensures
            id@ == value@,
    {
        TaskId(value.to_owned())
    }

    /// The identifier's text.
    pub fn as_str(&self) -> (s: &str)
        ensures
            s@ == self@,
    {
        self.0.as_str()
    }
}

/// Tracks the identifiers of running tasks; each is held at most once.
#[derive(Debug)]
pub struct TaskSupervisor {
    active_tasks: Vec<TaskId>,
}

/// The identifiers held, in registration order.
pub open spec fn task_ids(v: Seq<TaskId>) -> Seq<Seq<char>> {
    v.map_values(|t: TaskId| t@)
}

impl View for TaskSupervisor {
    type V = Seq<Seq<char>>;

    closed spec fn view(&self) -> Seq<Seq<char>> {
        task_ids(self.active_tasks@)
    }
}

/// Registration: the identifier is appended unless already held.
pub open spec fn spec_register(s: Seq<Seq<char>>, task: Seq<char>) -> Seq<Seq<char>> {
    if s.contains(task) {
        s
    } else {
        s.push(task)
    }
}

/// Finishing: the identifier is removed if held.
pub open spec fn spec_finish(s: Seq<Seq<char>>, task: Seq<char>) -> Seq<Seq<char>> {
    match index_in(s, task) {
        Some(i) => s.remove(i as int),
        None => s,
    }
}

impl TaskSupervisor {
    /// No identifier is held twice.
    #[verifier::type_invariant]
    spec fn inv(self) -> bool {
        task_ids(self.active_tasks@).no_duplicates()
    }

    /// An empty supervisor.
    pub fn new() -> (s: TaskSupervisor)
        ensures
            s@ == Seq::<Seq<char>>::empty(),
    {
        let s = TaskSupervisor { active_tasks: Vec::new() };
        assert(s@ =~= Seq::<Seq<char>>::empty());
        s
    }

    fn position(&self, task_id: &TaskId) -> (r: Option<usize>)
        ensures
            r == match index_in(self@, task_id@) {
                Some(i) => Some(i as usize),
                None => None::<usize>,
            },
    {
        proof {
            lemma_index_in(self@, task_id@);
        }
        let mut i: usize = 0;
        while i < self.active_tasks.len()
            invariant
                i <= self@.len(),
                self@.len() == self.active_tasks@.len(),
                forall|j: int| 0 <= j < i ==> self@[j] != task_id@,
            decreases self.active_tasks.len() - i,
        {
            if self.active_tasks[i].0 == task_id.0 {
                proof {
                    lemma_index_in(self@, task_id@);
                    assert(self@[i as int] == task_id@);
                }
                return Some(i);
            }
            i = i + 1;
        }
        proof {
            lemma_index_in(self@, task_id@);
            if self@.contains(task_id@) {
                let k = choose|k: int| 0 <= k < self@.len() && self@[k] == task_id@;
                assert(self@[k] != task_id@);
            }
        }
        None
    }

    /// Whether the task is registered.
    pub fn contains(&self, task_id: &TaskId) -> (b: bool)
        ensures
            b == self@.contains(task_id@),
    {
        proof {
            lemma_index_in(self@, task_id@);
        }
        self.position(task_id).is_some()
    }

    /// Registers a task; true when it was not registered before.
    pub fn register(&mut self, task_id: TaskId) -> (inserted: bool)
        ensures
            final(self)@.no_duplicates(),
            inserted == !old(self)@.contains(task_id@),
            final(self)@ == spec_register(old(self)@, task_id@),
    {
        proof {
            use_type_invariant(&*self);
        }
        if self.contains(&task_id) {
            return false;
        }
        let ghost before = self@;
        let ghost k = task_id@;
        let mut tasks: Vec<TaskId> = Vec::new();
        std::mem::swap(&mut tasks, &mut self.active_tasks);
        tasks.push(task_id);
        let ghost after = task_ids(tasks@);
        assert(after =~= before.push(k));
        proof {
            assert forall|i: int, j: int|
                0 <= i < after.len() && 0 <= j < after.len() && i != j implies after[i] != after[j] by {
                if i == before.len() {
                    assert(after[j] == before[j]);
                } else if j == before.len() {
                    assert(after[i] == before[i]);
                } else {
                    assert(after[i] == before[i] && after[j] == before[j]);
                }
            }
        }
        std::mem::swap(&mut tasks, &mut self.active_tasks);
        true
    }

    /// Removes a task; true when it was registered.
    pub fn finish(&mut self, task_id: &TaskId) -> (removed: bool)
        ensures
            final(self)@.no_duplicates(),
            removed == old(self)@.contains(task_id@),
            final(self)@ == spec_finish(old(self)@, task_id@),
    {
        proof {
            use_type_invariant(&*self);
            lemma_index_in(self@, task_id@);
        }
        let n = self.active_tasks.len();
        assert(self@.len() == n);
        match self.position(task_id) {
            Some(i) => {
                let ghost before = self@;
                let mut tasks: Vec<TaskId> = Vec::new();
                std::mem::swap(&mut tasks, &mut self.active_tasks);
                tasks.remove(i);
                let ghost after = task_ids(tasks@);
                assert(after =~= before.remove(i as int));
                proof {
                    assert forall|a: int, b: int|
                        0 <= a < after.len() && 0 <= b < after.len() && a != b implies after[a]
                        != after[b] by {
                        let a2 = if a < i { a } else { a + 1 };
                        let b2 = if b < i { b } else { b + 1 };
                        assert(after[a] == before[a2] && after[b] == before[b2]);
                    }
                }
                std::mem::swap(&mut tasks, &mut self.active_tasks);
                true
            },
            None => false,
        }
    }
}

/// Registering a task that was not held and then finishing it gives back the
/// registry exactly as it was.
pub proof fn law_register_then_finish(s: Seq<Seq<char>>, task: Seq<char>)
    requires
        !s.contains(task),
    ensures
        spec_finish(spec_register(s, task), task) == s,
{
    let r = s.push(task);
    lemma_index_in(r, task);
    match index_in(r, task) {
        Some(i) => {
            if i < s.len() {
                assert(s[i as int] == task);
            }
            assert(r.remove(i as int) =~= s);
        },
        None => {
            assert(r[s.len() as int] == task);
        },
    }
}

/// A registered task is reported as contained.
pub proof fn law_register_contains(s: Seq<Seq<char>>, task: Seq<char>)
    ensures
        spec_register(s, task).contains(task),
{
    if !s.contains(task) {
        assert(s.push(task)[s.len() as int] == task);
    }
}

} // verus!
