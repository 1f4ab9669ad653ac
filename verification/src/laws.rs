//! What holds of the operations on a collection, whatever the collection.
//!
//! Each law is stated of the values that the contracts in [`crate::model`]
//! speak of.

use crate::model::{ListView, TaskView};
use crate::sequences::{
    lemma_filter_drops_one, lemma_filter_keeps_all, lemma_filter_positions, lemma_filter_split,
    taken_in_order,
};
use vstd::prelude::*;

verus! {

/// The identifier that the addition at `k` of a run of additions returns:
/// `next_id` as it stands after the `k` additions before it.
pub open spec fn added_id(list: ListView, texts: Seq<Seq<char>>, k: int) -> nat {
    list.with_all_added(texts.take(k)).next_id
}

/// A run of additions appends one open task for each text, in order, and the
/// addition at `k` hands out the identifier `next_id + k`.
pub proof fn lemma_additions(list: ListView, texts: Seq<Seq<char>>)
    ensures
        list.with_all_added(texts).next_id == list.next_id + texts.len(),
        list.with_all_added(texts).tasks == list.tasks + Seq::new(
            texts.len(),
            |k: int| TaskView { id: list.next_id + k as nat, text: texts[k], done: false },
        ),
    decreases texts.len(),
{
    if texts.len() > 0 {
        lemma_additions(list, texts.drop_last());
    }
}

/// Whatever is added, in whatever number, the identifiers that the additions
/// return increase strictly from one to the next, so no two are the same.
pub proof fn lemma_added_ids_increase(list: ListView, texts: Seq<Seq<char>>)
    ensures
        forall|k: int|
            0 <= k < texts.len() ==> #[trigger] added_id(list, texts, k) == list.next_id + k,
        forall|j: int, k: int|
            0 <= j < k < texts.len() ==> added_id(list, texts, j) < added_id(list, texts, k),
{
    assert forall|k: int| 0 <= k < texts.len() implies #[trigger] added_id(list, texts, k)
        == list.next_id + k by {
        lemma_additions(list, texts.take(k));
    }
}

/// No identifier that an addition returns is carried by a task that the
/// collection held before, and the collection stays valid.
pub proof fn lemma_added_ids_are_new(list: ListView, texts: Seq<Seq<char>>)
    requires
        list.valid(),
    ensures
        list.with_all_added(texts).valid(),
        forall|k: int| 0 <= k < texts.len() ==> !list.has(#[trigger] added_id(list, texts, k)),
{
    lemma_additions(list, texts);
    lemma_added_ids_increase(list, texts);
}

/// An identifier that was removed is not given to the task added next: the
/// removal takes it out of the collection and leaves `next_id` above it, and
/// the addition does not bring it back.
pub proof fn lemma_removed_id_is_not_reused(list: ListView, id: nat, text: Seq<char>)
    requires
        list.valid(),
        list.has(id),
    ensures
        !list.without(id).has(id),
        id < list.without(id).next_id,
        list.without(id).with_added(text).tasks.last().id != id,
        !list.without(id).with_added(text).has(id),
{
    lemma_remove_takes_one(list, id);
}

/// Removing an identifier that a task carries takes out that one task and
/// leaves the others where they were, one place up behind it.
pub proof fn lemma_remove_takes_one(list: ListView, id: nat) -> (i: int)
    requires
        list.valid(),
        list.has(id),
    ensures
        0 <= i < list.tasks.len(),
        list.tasks[i].id == id,
        list.without(id).tasks == list.tasks.remove(i),
        list.without(id).valid(),
{
    let i = choose|i: int| 0 <= i < list.tasks.len() && list.tasks[i].id == id;
    lemma_filter_drops_one(list.tasks, |task: TaskView| task.id != id, i);
    i
}

/// An identifier that no task carries changes nothing, marked or removed.
pub proof fn lemma_absent_id_changes_nothing(list: ListView, id: nat)
    requires
        !list.has(id),
    ensures
        list.with_done(id) == list,
        list.without(id) == list,
{
    assert(list.with_done(id).tasks =~= list.tasks);
    lemma_filter_keeps_all(list.tasks, |task: TaskView| task.id != id);
}

/// Marking turns the task at `i` into the same task done if it carries the
/// identifier, and leaves it as it is if not.
pub proof fn lemma_mark_done_sets_the_flag(list: ListView, id: nat, i: int)
    requires
        0 <= i < list.tasks.len(),
    ensures
        list.with_done(id).tasks.len() == list.tasks.len(),
        list.with_done(id).tasks[i] == if list.tasks[i].id == id {
            list.tasks[i].marked()
        } else {
            list.tasks[i]
        },
{
}

/// Marking twice gives what marking once gives. It keeps the identifiers in
/// the collection, so that a second marking finds what the first found, and
/// with them the validity of the collection.
pub proof fn lemma_mark_done_is_idempotent(list: ListView, id: nat)
    ensures
        list.with_done(id).with_done(id) == list.with_done(id),
        list.with_done(id).has(id) == list.has(id),
        list.with_done(id).valid() == list.valid(),
{
    let once = list.with_done(id);
    assert(once.with_done(id).tasks =~= once.tasks);
    if list.has(id) {
        let i = choose|i: int| 0 <= i < list.tasks.len() && list.tasks[i].id == id;
        assert(once.tasks[i].id == id);
    }
    if once.valid() {
        assert forall|i: int, j: int| 0 <= i < j < list.tasks.len() implies list.tasks[i].id
            != list.tasks[j].id by {
            assert(once.tasks[i].id != once.tasks[j].id);
        }
        assert forall|i: int| 0 <= i < list.tasks.len() implies list.tasks[i].id
            < list.next_id by {
            assert(once.tasks[i].id < once.next_id);
        }
    }
}

/// Clearing takes out the done tasks and no others, and leaves the rest in
/// the order they had: what is left are the tasks at the returned positions,
/// which increase and are those of the tasks that were not done. As many
/// tasks go as were done.
pub proof fn lemma_clear_done_is_exact(list: ListView) -> (from: Seq<int>)
    ensures
        taken_in_order(list.without_done().tasks, list.tasks, from),
        forall|k: int| 0 <= k < from.len() ==> !list.tasks[#[trigger] from[k]].done,
        forall|i: int| 0 <= i < list.tasks.len() && !list.tasks[i].done ==> from.contains(i),
        list.done_count() == list.tasks.len() - list.without_done().tasks.len(),
        list.without_done().next_id == list.next_id,
{
    lemma_filter_split(list.tasks, |task: TaskView| task.done, |task: TaskView| !task.done);
    lemma_filter_positions(list.tasks, |task: TaskView| !task.done)
}

/// Clearing the done tasks of a valid collection leaves a valid one.
pub proof fn lemma_clear_done_keeps_valid(list: ListView)
    requires
        list.valid(),
    ensures
        list.without_done().valid(),
{
    let kept = list.without_done().tasks;
    let from = lemma_clear_done_is_exact(list);
    assert forall|i: int, j: int| 0 <= i < j < kept.len() implies kept[i].id != kept[j].id by {
        assert(from[i] < from[j]);
    }
    assert forall|i: int| 0 <= i < kept.len() implies kept[i].id < list.next_id by {
        assert(kept[i] == list.tasks[from[i]]);
    }
}

} // verus!
