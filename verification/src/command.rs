//! The commands of the task list: what each does to a collection, what it
//! reports, and whether the collection has to be saved afterwards.

use crate::laws::{
    lemma_absent_id_changes_nothing, lemma_clear_done_is_exact, lemma_clear_done_keeps_valid,
    lemma_mark_done_is_idempotent, lemma_remove_takes_one,
};
use crate::model::{ListView, TaskView, TodoError, TodoList};
use crate::sequences::lemma_filter_full_length;
use vstd::prelude::*;

verus! {

/// The exit status of a run that went well.
pub const EXIT_SUCCESS: i32 = 0;

/// The exit status of a run that could not load or save the collection.
pub const EXIT_STORAGE_FAILURE: i32 = 1;

/// The exit status of a run that named an identifier that no task carries.
pub const EXIT_NOT_FOUND: i32 = 2;

/// One request to the task list.
#[derive(Debug, PartialEq, Eq)]
pub enum Command {
    /// Append a new task with this text.
    Add { text: String },
    /// Show every task.
    List,
    /// Mark the task with this identifier as done.
    Done { id: u64 },
    /// Delete the task with this identifier.
    Rm { id: u64 },
    /// Delete every task that is done.
    ClearDone,
}

/// What a command came to.
#[derive(Debug, PartialEq, Eq, Structural)]
pub enum Outcome {
    /// A task was appended and got this identifier; it is the last task.
    Added { id: u64 },
    /// The tasks are to be shown as they stand.
    Listed,
    /// The task with this identifier is done now.
    MarkedDone { id: u64 },
    /// The task with this identifier was deleted.
    Removed { id: u64 },
    /// This many done tasks were deleted.
    Cleared { count: usize },
    /// No task carries this identifier; nothing changed.
    NotFound { id: u64 },
}

impl Outcome {
    /// Whether the collection has to be saved: after every command that can
    /// change it, unless the command found nothing to change.
    pub open spec fn spec_needs_saving(&self) -> bool {
        match *self {
            Outcome::Added { .. } | Outcome::MarkedDone { .. } | Outcome::Removed { .. } => true,
            Outcome::Cleared { count } => count > 0,
            Outcome::Listed | Outcome::NotFound { .. } => false,
        }
    }

    /// The exit status of a run that ends with this outcome, its collection
    /// saved where that was due.
    pub open spec fn spec_exit_code(&self) -> i32 {
        if *self is NotFound {
            EXIT_NOT_FOUND
        } else {
            EXIT_SUCCESS
        }
    }

    /// Whether the collection has to be saved: after every command that can
    /// change it, unless the command found nothing to change.
    #[verifier::when_used_as_spec(spec_needs_saving)]
    pub fn needs_saving(&self) -> (due: bool)
        ensures
            due == self.spec_needs_saving(),
    {
        match self {
            Outcome::Added { .. } | Outcome::MarkedDone { .. } | Outcome::Removed { .. } => true,
            Outcome::Cleared { count } => *count > 0,
            Outcome::Listed | Outcome::NotFound { .. } => false,
        }
    }

    /// The exit status of a run that ends with this outcome, its collection
    /// saved where that was due.
    #[verifier::when_used_as_spec(spec_exit_code)]
    pub fn exit_code(&self) -> (code: i32)
        ensures
            code == self.spec_exit_code(),
    {
        match self {
            Outcome::NotFound { .. } => EXIT_NOT_FOUND,
            _ => EXIT_SUCCESS,
        }
    }
}

/// The collection after `command`.
pub open spec fn effect(list: ListView, command: Command) -> ListView {
    match command {
        Command::Add { text } => list.with_added(text@),
        Command::List => list,
        Command::Done { id } => list.with_done(id as nat),
        Command::Rm { id } => list.without(id as nat),
        Command::ClearDone => list.without_done(),
    }
}

/// What `command` comes to on `list`.
pub open spec fn outcome_of(list: ListView, command: Command) -> Outcome {
    match command {
        Command::Add { text } => Outcome::Added { id: list.next_id as u64 },
        Command::List => Outcome::Listed,
        Command::Done { id } => if list.has(id as nat) {
            Outcome::MarkedDone { id }
        } else {
            Outcome::NotFound { id }
        },
        Command::Rm { id } => if list.has(id as nat) {
            Outcome::Removed { id }
        } else {
            Outcome::NotFound { id }
        },
        Command::ClearDone => Outcome::Cleared { count: list.done_count() as usize },
    }
}

/// A command after which nothing has to be saved has changed nothing.
pub proof fn lemma_unsaved_is_unchanged(list: ListView, command: Command)
    requires
        list.tasks.len() <= usize::MAX,
        !outcome_of(list, command).needs_saving(),
    ensures
        effect(list, command) == list,
{
    match command {
        Command::Done { id } => {
            lemma_absent_id_changes_nothing(list, id as nat);
        },
        Command::Rm { id } => {
            lemma_absent_id_changes_nothing(list, id as nat);
        },
        Command::ClearDone => {
            lemma_clear_done_is_exact(list);
            lemma_filter_full_length(list.tasks, |task: TaskView| !task.done);
        },
        _ => {},
    }
}

/// No command breaks the validity of a collection or lowers `next_id`: an
/// identifier that was handed out once stays below `next_id` for good.
pub proof fn lemma_effect_keeps_valid(list: ListView, command: Command)
    requires
        list.valid(),
    ensures
        effect(list, command).valid(),
        effect(list, command).next_id >= list.next_id,
{
    match command {
        Command::Add { text } => {},
        Command::List => {},
        Command::Done { id } => {
            lemma_mark_done_is_idempotent(list, id as nat);
        },
        Command::Rm { id } => {
            if list.has(id as nat) {
                lemma_remove_takes_one(list, id as nat);
            } else {
                lemma_absent_id_changes_nothing(list, id as nat);
            }
        },
        Command::ClearDone => {
            lemma_clear_done_keeps_valid(list);
        },
    }
}

/// Carries out `command` on `list`.
pub fn run(list: &mut TodoList, command: Command) -> (outcome: Outcome)
    requires
        command is Add ==> old(list)@.next_id < u64::MAX,
    ensures
        final(list)@ == effect(old(list)@, command),
        outcome == outcome_of(old(list)@, command),
        final(list)@.valid(),
{
    proof {
        use_type_invariant(&*list);
    }
    match command {
        Command::Add { text } => {
            let task = list.add(text);
            Outcome::Added { id: task.id }
        },
        Command::List => Outcome::Listed,
        Command::Done { id } => {
            proof {
                if !list@.has(id as nat) {
                    lemma_absent_id_changes_nothing(list@, id as nat);
                }
            }
            match list.mark_done(id) {
                Ok(()) => Outcome::MarkedDone { id },
                Err(TodoError::NotFound(missing)) => Outcome::NotFound { id: missing },
            }
        },
        Command::Rm { id } => {
            proof {
                if !list@.has(id as nat) {
                    lemma_absent_id_changes_nothing(list@, id as nat);
                }
            }
            match list.remove(id) {
                Ok(()) => Outcome::Removed { id },
                Err(TodoError::NotFound(missing)) => Outcome::NotFound { id: missing },
            }
        },
        Command::ClearDone => {
            let count = list.clear_done();
            Outcome::Cleared { count }
        },
    }
}

} // verus!
