//! Tasks, the collection that owns them, and the operations on it.

use crate::laws::lemma_clear_done_keeps_valid;
use crate::sequences::{
    lemma_filter_drops_one, lemma_filter_keeps_all, lemma_filter_push, lemma_filter_split,
};
use vstd::prelude::*;

verus! {

/// The mathematical value of a [`Task`].
pub struct TaskView {
    pub id: nat,
    pub text: Seq<char>,
    pub done: bool,
}

impl TaskView {
    /// The same task, done.
    pub open spec fn marked(self) -> TaskView {
        TaskView { id: self.id, text: self.text, done: true }
    }
}

/// One to-do entry.
#[derive(Debug, PartialEq, Eq)]
pub struct Task {
    pub id: u64,
    pub text: String,
    pub done: bool,
}

impl View for Task {
    type V = TaskView;

    open spec fn view(&self) -> TaskView {
        TaskView { id: self.id as nat, text: self.text@, done: self.done }
    }
}

impl Clone for Task {
    /// A copy that equals the task in every field.
    fn clone(&self) -> (copy: Self)
        ensures
            copy == *self,
    {
        Task { id: self.id, text: self.text.clone(), done: self.done }
    }
}

impl Task {
    /// A task that is not done yet.
    pub fn new(id: u64, text: String) -> (task: Self)
        ensures
            task@ == (TaskView { id: id as nat, text: text@, done: false }),
    {
        Self { id, text, done: false }
    }
}

/// The mathematical value of a [`TodoList`]: its tasks in order, and the
/// identifier that the next new task will get.
pub struct ListView {
    pub tasks: Seq<TaskView>,
    pub next_id: nat,
}

impl ListView {
    /// The collection with no task, whose first task will get identifier 1.
    pub open spec fn empty() -> ListView {
        ListView { tasks: Seq::empty(), next_id: 1 }
    }

    /// No identifier occurs twice, and each lies below `next_id`.
    pub open spec fn valid(self) -> bool {
        &&& forall|i: int, j: int|
            0 <= i < j < self.tasks.len() ==> self.tasks[i].id != self.tasks[j].id
        &&& forall|i: int| 0 <= i < self.tasks.len() ==> self.tasks[i].id < self.next_id
    }

    /// Whether some task carries `id`.
    pub open spec fn has(self, id: nat) -> bool {
        exists|i: int| 0 <= i < self.tasks.len() && self.tasks[i].id == id
    }

    /// The collection after every task that carries `id` was marked done; a
    /// valid collection has at most one such task.
    pub open spec fn with_done(self, id: nat) -> ListView {
        ListView {
            tasks: self.tasks.map_values(
                |task: TaskView|
                    if task.id == id {
                        task.marked()
                    } else {
                        task
                    },
            ),
            next_id: self.next_id,
        }
    }

    /// The collection without the tasks that carry `id`; a valid collection
    /// has at most one such task.
    pub open spec fn without(self, id: nat) -> ListView {
        ListView {
            tasks: self.tasks.filter(|task: TaskView| task.id != id),
            next_id: self.next_id,
        }
    }

    /// The collection without the tasks that are done.
    pub open spec fn without_done(self) -> ListView {
        ListView { tasks: self.tasks.filter(|task: TaskView| !task.done), next_id: self.next_id }
    }

    /// How many tasks are done.
    pub open spec fn done_count(self) -> nat {
        self.tasks.filter(|task: TaskView| task.done).len()
    }

    /// The collection after a new task with `text` was appended.
    pub open spec fn with_added(self, text: Seq<char>) -> ListView {
        ListView {
            tasks: self.tasks.push(TaskView { id: self.next_id, text, done: false }),
            next_id: self.next_id + 1,
        }
    }

    /// The collection after one task was appended for each of `texts`, in
    /// their order.
    pub open spec fn with_all_added(self, texts: Seq<Seq<char>>) -> ListView
        decreases texts.len(),
    {
        if texts.len() == 0 {
            self
        } else {
            self.with_all_added(texts.drop_last()).with_added(texts.last())
        }
    }
}

/// Why an operation on a collection was refused.
#[derive(Debug, PartialEq, Eq, Structural)]
pub enum TodoError {
    /// No task carries this identifier.
    NotFound(u64),
}

/// The values of `tasks`, one for one.
pub open spec fn views(tasks: Seq<Task>) -> Seq<TaskView> {
    tasks.map_values(|task: Task| task@)
}

/// An ordered collection of tasks that hands out identifiers.
#[derive(Debug)]
pub struct TodoList {
    tasks: Vec<Task>,
    next_id: u64,
}

impl View for TodoList {
    type V = ListView;

    closed spec fn view(&self) -> ListView {
        ListView { tasks: views(self.tasks@), next_id: self.next_id as nat }
    }
}

impl Default for TodoList {
    /// An empty collection, as [`TodoList::new`] makes it.
    fn default() -> (list: Self)
        ensures
            list@ == ListView::empty(),
    {
        Self::new()
    }
}

impl TodoList {
    /// What holds of every collection: its value is valid.
    #[verifier::type_invariant]
    pub open spec fn well_formed(self) -> bool {
        self@.valid()
    }

    /// An empty collection.
    pub fn new() -> (list: Self)
        ensures
            list@ == ListView::empty(),
    {
        let list = Self { tasks: Vec::new(), next_id: 1 };
        assert(list@.tasks =~= Seq::<TaskView>::empty());
        list
    }

    /// The collection of `tasks`, which must be valid with `next_id`.
    pub(crate) fn from_valid_parts(tasks: Vec<Task>, next_id: u64) -> (list: Self)
        requires
            (ListView { tasks: views(tasks@), next_id: next_id as nat }).valid(),
        ensures
            list@ == (ListView { tasks: views(tasks@), next_id: next_id as nat }),
    {
        Self { tasks, next_id }
    }

    /// Takes the tasks out of the collection and leaves it empty. An operation
    /// changes the tasks it has taken and puts them back, so that the
    /// collection holds a valid value at every moment.
    fn take_tasks(&mut self) -> (tasks: Vec<Task>)
        ensures
            tasks == old(self).tasks,
            final(self).tasks@.len() == 0,
            final(self).next_id == old(self).next_id,
    {
        let mut tasks: Vec<Task> = Vec::new();
        core::mem::swap(&mut self.tasks, &mut tasks);
        tasks
    }

    /// The identifier that the next new task will get.
    pub fn next_id(&self) -> (id: u64)
        ensures
            id == self@.next_id,
    {
        self.next_id
    }

    /// All tasks, oldest first.
    pub fn list(&self) -> (tasks: &[Task])
        ensures
            views(tasks@) == self@.tasks,
    {
        self.tasks.as_slice()
    }

    /// Appends a new task with `text` and returns it.
    pub fn add(&mut self, text: String) -> (task: &Task)
        requires
            old(self)@.next_id < u64::MAX,
        ensures
            final(self)@ == old(self)@.with_added(text@),
            task@ == (TaskView { id: old(self)@.next_id, text: text@, done: false }),
            final(self)@.valid(),
    {
        proof {
            use_type_invariant(&*self);
        }
        let id = self.next_id;
        let mut tasks = self.take_tasks();
        tasks.push(Task::new(id, text));
        assert(views(tasks@) =~= old(self)@.with_added(text@).tasks);
        self.next_id = id + 1;
        self.tasks = tasks;
        &self.tasks[self.tasks.len() - 1]
    }
}

/// The position of a task that carries `id`, among the first `end` of `tasks`.
pub(crate) fn position(tasks: &Vec<Task>, end: usize, id: u64) -> (found: Option<usize>)
    requires
        end <= tasks.len(),
    ensures
        match found {
            Some(i) => i < end && tasks[i as int].id == id,
            None => forall|j: int| 0 <= j < end ==> tasks[j].id != id,
        },
{
    let mut i: usize = 0;
    while i < end
        invariant
            i <= end <= tasks.len(),
            forall|j: int| 0 <= j < i ==> tasks[j].id != id,
        decreases end - i,
    {
        if tasks[i].id == id {
            return Some(i);
        }
        i += 1;
    }
    None
}

impl TodoList {
    /// Marks the task that carries `id` as done.
    pub fn mark_done(&mut self, id: u64) -> (result: Result<(), TodoError>)
        ensures
            result is Ok <==> old(self)@.has(id as nat),
            result is Ok ==> final(self)@ == old(self)@.with_done(id as nat),
            result is Err ==> result == Err::<(), TodoError>(TodoError::NotFound(id)),
            result is Err ==> final(self)@ == old(self)@,
            final(self)@.valid(),
    {
        proof {
            use_type_invariant(&*self);
        }
        match position(&self.tasks, self.tasks.len(), id) {
            None => Err(TodoError::NotFound(id)),
            Some(i) => {
                let mut tasks = self.take_tasks();
                tasks[i].done = true;
                proof {
                    let before = old(self)@;
                    assert(before.tasks[i as int].id == id as nat);
                    assert(views(tasks@) =~= before.with_done(id as nat).tasks);
                }
                self.tasks = tasks;
                Ok(())
            },
        }
    }

    /// Deletes the task that carries `id`; the others keep their order.
    pub fn remove(&mut self, id: u64) -> (result: Result<(), TodoError>)
        ensures
            result is Ok <==> old(self)@.has(id as nat),
            result is Ok ==> final(self)@ == old(self)@.without(id as nat),
            result is Ok ==> final(self)@.tasks.len() == old(self)@.tasks.len() - 1,
            result is Err ==> result == Err::<(), TodoError>(TodoError::NotFound(id)),
            result is Err ==> final(self)@ == old(self)@,
            final(self)@.valid(),
    {
        proof {
            use_type_invariant(&*self);
        }
        match position(&self.tasks, self.tasks.len(), id) {
            None => Err(TodoError::NotFound(id)),
            Some(i) => {
                let mut tasks = self.take_tasks();
                tasks.remove(i);
                proof {
                    let before = old(self)@;
                    assert(before.tasks[i as int].id == id as nat);
                    lemma_filter_drops_one(
                        before.tasks,
                        |task: TaskView| task.id != id as nat,
                        i as int,
                    );
                    assert(views(tasks@) =~= before.tasks.remove(i as int));
                }
                self.tasks = tasks;
                Ok(())
            },
        }
    }

    /// Deletes every task that is done and returns how many there were; the
    /// others keep their order.
    pub fn clear_done(&mut self) -> (removed: usize)
        ensures
            final(self)@ == old(self)@.without_done(),
            removed == old(self)@.done_count(),
            removed == old(self)@.tasks.len() - final(self)@.tasks.len(),
            final(self)@.valid(),
    {
        proof {
            use_type_invariant(&*self);
        }
        let mut tasks = self.take_tasks();
        let before = tasks.len();
        let ghost all = tasks@;
        let mut kept: Vec<Task> = Vec::new();
        proof {
            lemma_filter_keeps_all(Seq::<TaskView>::empty(), |task: TaskView| !task.done);
        }
        for task in it: tasks
            invariant
                it.seq() == all,
                views(kept@) == views(all.take(it.index() as int)).filter(
                    |task: TaskView| !task.done,
                ),
        {
            proof {
                let k = it.index() as int;
                assert(views(all.take(k + 1)) =~= views(all.take(k)).push(task@));
                lemma_filter_push(views(all.take(k)), |task: TaskView| !task.done, task@);
            }
            if !task.done {
                kept.push(task);
            }
        }
        proof {
            assert(all.take(all.len() as int) =~= all);
            lemma_filter_split(
                views(all),
                |task: TaskView| task.done,
                |task: TaskView| !task.done,
            );
            lemma_clear_done_keeps_valid(old(self)@);
        }
        self.tasks = kept;
        before - self.tasks.len()
    }
}

} // verus!
