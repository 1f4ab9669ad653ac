//! The stored form of a collection, and the way from a collection into it
//! and back.
//!
//! Reading and writing the storage location, and turning its bytes into a
//! [`Document`], happen outside; this module decides what each outcome of
//! reading means.

use crate::model::{position, views, ListView, Task, TodoList};
use vstd::prelude::*;

verus! {

/// The stored form of a collection: its two fields as they stand in storage,
/// with nothing checked.
#[derive(Debug)]
pub struct Document {
    pub tasks: Vec<Task>,
    pub next_id: u64,
}

impl View for Document {
    type V = ListView;

    open spec fn view(&self) -> ListView {
        ListView { tasks: views(self.tasks@), next_id: self.next_id as nat }
    }
}

/// Why stored content is no collection.
#[derive(Debug, PartialEq, Eq)]
pub enum FormatError {
    /// The content could not be decoded; the decoder's message.
    Undecodable(String),
    /// This identifier is carried by more than one task.
    RepeatedId(u64),
    /// This identifier of a task does not lie below `next_id`.
    IdNotBelowNext(u64),
}

/// Why a collection could not be loaded or saved.
#[derive(Debug, PartialEq, Eq)]
pub enum StoreError {
    /// The storage location could not be read or written; the message of
    /// the failure.
    Io(String),
    /// The storage location holds something that is no collection.
    Format(FormatError),
}

/// What reading a storage location came to.
#[derive(Debug)]
pub enum Stored {
    /// Nothing exists at the location.
    Missing,
    /// The location exists and could not be read; the message of the failure.
    Unreadable(String),
    /// The content was read and could not be decoded; the decoder's message.
    Undecodable(String),
    /// The content was read and decoded.
    Decoded(Document),
}

impl Document {
    /// What is wrong with the task at `k`, going by the tasks before it.
    pub open spec fn fault_at(&self, k: int) -> Option<FormatError> {
        let id = self.tasks[k].id;
        if id >= self.next_id {
            Some(FormatError::IdNotBelowNext(id))
        } else if exists|j: int| 0 <= j < k && self.tasks[j].id == id {
            Some(FormatError::RepeatedId(id))
        } else {
            None
        }
    }

    /// Whether the task at `k` is the first with something wrong.
    pub open spec fn first_fault_at(&self, k: int) -> bool {
        &&& 0 <= k < self.tasks.len()
        &&& self.fault_at(k) is Some
        &&& forall|j: int| 0 <= j < k ==> self.fault_at(j) is None
    }

    /// What is wrong with the first task that has something wrong.
    pub open spec fn fault(&self) -> Option<FormatError> {
        if exists|k: int| self.first_fault_at(k) {
            self.fault_at(choose|k: int| self.first_fault_at(k))
        } else {
            None
        }
    }

    /// The fault of a document is that of the first task with something wrong.
    pub proof fn lemma_fault_is_first(&self, k: int)
        requires
            self.first_fault_at(k),
        ensures
            self.fault() == self.fault_at(k),
    {
    }

    /// A document has no fault exactly when it holds a valid collection.
    pub proof fn lemma_fault_free_is_valid(&self)
        ensures
            self.fault() is None <==> self@.valid(),
    {
        if self@.valid() {
            assert forall|k: int| 0 <= k < self.tasks.len() implies self.fault_at(k) is None by {
                assert forall|j: int| 0 <= j < k implies self.tasks[j].id != self.tasks[k].id by {
                    assert(self@.tasks[j].id != self@.tasks[k].id);
                }
            }
        } else {
            self.lemma_fault_exists();
        }
    }

    /// A document that holds no valid collection has a first fault.
    proof fn lemma_fault_exists(&self)
        requires
            !self@.valid(),
        ensures
            exists|k: int| self.first_fault_at(k),
    {
        let bad = choose|k: int| 0 <= k < self.tasks.len() && self.fault_at(k) is Some;
        assert(0 <= bad < self.tasks.len() && self.fault_at(bad) is Some) by {
            if forall|i: int| 0 <= i < self@.tasks.len() ==> self@.tasks[i].id < self@.next_id {
                let (i, j) = choose|i: int, j: int|
                    0 <= i < j < self@.tasks.len() && self@.tasks[i].id == self@.tasks[j].id;
                assert(self.fault_at(j) is Some);
            } else {
                let i = choose|i: int|
                    0 <= i < self@.tasks.len() && !(self@.tasks[i].id < self@.next_id);
                assert(self.fault_at(i) is Some);
            }
        }
        self.lemma_least_fault(bad);
    }

    /// Below a task with something wrong there is a first one.
    proof fn lemma_least_fault(&self, bad: int)
        requires
            0 <= bad < self.tasks.len(),
            self.fault_at(bad) is Some,
        ensures
            exists|k: int| self.first_fault_at(k),
        decreases bad,
    {
        if forall|j: int| 0 <= j < bad ==> self.fault_at(j) is None {
            assert(self.first_fault_at(bad));
        } else {
            let j = choose|j: int| 0 <= j < bad && self.fault_at(j) is Some;
            self.lemma_least_fault(j);
        }
    }
}

/// What `load` makes of each thing found: the value of the collection, or
/// the error.
pub open spec fn loaded(found: Stored) -> Result<ListView, StoreError> {
    match found {
        Stored::Missing => Ok(ListView::empty()),
        Stored::Unreadable(why) => Err(StoreError::Io(why)),
        Stored::Undecodable(why) => Err(StoreError::Format(FormatError::Undecodable(why))),
        Stored::Decoded(document) => match document.fault() {
            None => Ok(document@),
            Some(fault) => Err(StoreError::Format(fault)),
        },
    }
}

/// Round trip: a document that holds a valid collection, as every document
/// that `save` returns does, is loaded as that collection.
pub proof fn lemma_round_trip(document: Document)
    requires
        document@.valid(),
    ensures
        loaded(Stored::Decoded(document)) == Ok::<ListView, StoreError>(document@),
{
    document.lemma_fault_free_is_valid();
}

/// Looks for the first task of `document` with something wrong.
fn check(document: &Document) -> (fault: Option<FormatError>)
    ensures
        fault == document.fault(),
{
    let mut k: usize = 0;
    while k < document.tasks.len()
        invariant
            k <= document.tasks.len(),
            forall|j: int| 0 <= j < k ==> document.fault_at(j) is None,
        decreases document.tasks.len() - k,
    {
        let id = document.tasks[k].id;
        let fault = if id >= document.next_id {
            Some(FormatError::IdNotBelowNext(id))
        } else if position(&document.tasks, k, id).is_some() {
            Some(FormatError::RepeatedId(id))
        } else {
            None
        };
        if fault.is_some() {
            proof {
                document.lemma_fault_is_first(k as int);
            }
            return fault;
        }
        k += 1;
    }
    None
}

/// The collection that a storage location holds, going by what reading it
/// came to. A location where nothing exists holds the empty collection.
pub fn load(found: Stored) -> (result: Result<TodoList, StoreError>)
    ensures
        match loaded(found) {
            Ok(value) => result matches Ok(list) && list@ == value,
            Err(error) => result == Err::<TodoList, StoreError>(error),
        },
        found matches Stored::Decoded(document) ==> (result is Ok <==> document@.valid()),
{
    match found {
        Stored::Missing => Ok(TodoList::new()),
        Stored::Unreadable(why) => Err(StoreError::Io(why)),
        Stored::Undecodable(why) => Err(StoreError::Format(FormatError::Undecodable(why))),
        Stored::Decoded(document) => {
            proof {
                document.lemma_fault_free_is_valid();
            }
            match check(&document) {
                Some(fault) => Err(StoreError::Format(fault)),
                None => Ok(TodoList::from_valid_parts(document.tasks, document.next_id)),
            }
        },
    }
}

/// The document to store for `list`: every task in order, and `next_id`.
pub fn save(list: &TodoList) -> (document: Document)
    ensures
        document@ == list@,
        document@.valid(),
{
    proof {
        use_type_invariant(list);
    }
    let tasks = list.list();
    let mut copies: Vec<Task> = Vec::new();
    let mut i: usize = 0;
    while i < tasks.len()
        invariant
            i <= tasks.len(),
            copies@ == tasks@.take(i as int),
        decreases tasks.len() - i,
    {
        copies.push(tasks[i].clone());
        i += 1;
    }
    assert(tasks@.take(tasks.len() as int) =~= tasks@);
    Document { tasks: copies, next_id: list.next_id() }
}

} // verus!
