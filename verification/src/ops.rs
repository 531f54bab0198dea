//! The edits of a task list: what appending a task makes of it, and
//! completing and deleting the tasks with an identifier.
//!
//! The functions here work on any list, whatever identifiers it holds.
//! Their results are stated over the models of the tasks. A new task gets
//! its identifier from the store, which keeps the counter.

use vstd::prelude::*;
use crate::task::{models, Status, Task, TaskModel};

verus! {

/// The list with one more task at its end, in progress.
pub open spec fn appended(tasks: Seq<TaskModel>, id: u32, description: Seq<char>) -> Seq<TaskModel> {
    tasks.push(TaskModel { id, description, status: Status::InProgress })
}

/// Whether some task of the list has this identifier.
pub open spec fn has_id(tasks: Seq<TaskModel>, id: u32) -> bool {
    exists|i: int| 0 <= i < tasks.len() && (#[trigger] tasks[i]).id == id
}

/// Whether the task at `i` is the first of the list with this identifier.
pub open spec fn is_first_with_id(tasks: Seq<TaskModel>, id: u32, i: int) -> bool {
    &&& 0 <= i < tasks.len()
    &&& tasks[i].id == id
    &&& forall|j: int| 0 <= j < i ==> (#[trigger] tasks[j]).id != id
}

/// The list in which the first task with this identifier is done and all
/// others are as they were.
pub open spec fn completed(tasks: Seq<TaskModel>, id: u32) -> Seq<TaskModel> {
    Seq::new(
        tasks.len(),
        |i: int| if is_first_with_id(tasks, id, i) { tasks[i].done() } else { tasks[i] },
    )
}

/// The list without the tasks that have this identifier, the others in order.
pub open spec fn without_id(tasks: Seq<TaskModel>, id: u32) -> Seq<TaskModel> {
    tasks.filter(|t: TaskModel| t.id != id)
}

/// Whether no two tasks of the list share an identifier.
pub open spec fn ids_distinct(tasks: Seq<TaskModel>) -> bool {
    forall|i: int, j: int|
        0 <= i < j < tasks.len() ==> (#[trigger] tasks[i]).id != (#[trigger] tasks[j]).id
}

/// Marks the first task with this identifier as done. Returns whether there
/// was one; if not, the list is unchanged.
pub fn mark_complete(tasks: &mut Vec<Task>, id: u32) -> (found: bool)
    ensures
        found == has_id(models(old(tasks)@), id),
        models(final(tasks)@) == completed(models(old(tasks)@), id),
        !found ==> final(tasks)@ == old(tasks)@,
{
    let mut i: usize = 0;
    while i < tasks.len()
        invariant
            i <= tasks.len(),
            tasks@ == old(tasks)@,
            forall|j: int| 0 <= j < i ==> (#[trigger] tasks@[j]).id != id,
        decreases tasks.len() - i,
    {
        if tasks[i].id == id {
            tasks[i].status = Status::Done;
            proof {
                let before = models(old(tasks)@);
                assert(is_first_with_id(before, id, i as int));
                assert(models(tasks@) =~= completed(before, id));
            }
            return true;
        }
        i += 1;
    }
    proof {
        let before = models(old(tasks)@);
        assert(models(tasks@) =~= completed(before, id));
    }
    false
}

/// Removes every task with this identifier and keeps the others in order.
/// Returns whether the list became shorter.
pub fn delete_task(tasks: &mut Vec<Task>, id: u32) -> (found: bool)
    ensures
        found == has_id(models(old(tasks)@), id),
        found == (final(tasks)@.len() < old(tasks)@.len()),
        models(final(tasks)@) == without_id(models(old(tasks)@), id),
        !found ==> final(tasks)@ == old(tasks)@,
{
    let ghost before = models(tasks@);
    let len_before = tasks.len();
    let mut source: Vec<Task> = Vec::new();
    core::mem::swap(tasks, &mut source);
    proof {
        assert(before.take(0) =~= Seq::<TaskModel>::empty());
        lemma_without_id_empty(id);
        assert(models(tasks@) =~= Seq::<TaskModel>::empty());
    }
    for task in iter: source
        invariant
            iter.seq() == old(tasks)@,
            before == models(old(tasks)@),
            models(tasks@) == without_id(before.take(iter.index()), id),
            (tasks@.len() < iter.index()) == has_id(before.take(iter.index()), id),
            tasks@.len() <= iter.index(),
            tasks@.len() == iter.index() ==> tasks@ == old(tasks)@.take(iter.index()),
    {
        let ghost k = iter.index();
        proof {
            assert(before[k] == task@);
            lemma_without_id_step(before, id, k);
            lemma_has_id_step(before, id, k);
        }
        if task.id != id {
            tasks.push(task);
            proof {
                assert(models(tasks@) =~= without_id(before.take(k), id).push(before[k]));
                if tasks@.len() == k + 1 {
                    assert(tasks@ =~= old(tasks)@.take(k + 1));
                }
            }
        }
    }
    proof {
        assert(before.take(before.len() as int) =~= before);
        assert(old(tasks)@.take(old(tasks)@.len() as int) =~= old(tasks)@);
    }
    tasks.len() < len_before
}

/// Nothing is left out of an empty list.
pub proof fn lemma_without_id_empty(id: u32)
    ensures
        without_id(Seq::<TaskModel>::empty(), id) == Seq::<TaskModel>::empty(),
{
    reveal(Seq::filter);
}

/// How `without_id` grows with the list: a task with another identifier is
/// kept at the end, one with this identifier is left out.
pub proof fn lemma_without_id_step(tasks: Seq<TaskModel>, id: u32, k: int)
    requires
        0 <= k < tasks.len(),
    ensures
        without_id(tasks.take(k + 1), id) == if tasks[k].id != id {
            without_id(tasks.take(k), id).push(tasks[k])
        } else {
            without_id(tasks.take(k), id)
        },
{
    assert(tasks.take(k + 1) =~= tasks.take(k).push(tasks[k]));
    tasks.take(k).lemma_filter_push(tasks[k], |t: TaskModel| t.id != id);
}

/// How `has_id` grows with the list.
pub proof fn lemma_has_id_step(tasks: Seq<TaskModel>, id: u32, k: int)
    requires
        0 <= k < tasks.len(),
    ensures
        has_id(tasks.take(k + 1), id) == (has_id(tasks.take(k), id) || tasks[k].id == id),
{
    let shorter = tasks.take(k);
    let longer = tasks.take(k + 1);
    if has_id(shorter, id) {
        let i = choose|i: int| 0 <= i < shorter.len() && (#[trigger] shorter[i]).id == id;
        assert(longer[i].id == id);
    }
    if tasks[k].id == id {
        assert(longer[k].id == id);
    }
    if has_id(longer, id) {
        let i = choose|i: int| 0 <= i < longer.len() && (#[trigger] longer[i]).id == id;
        if i < k {
            assert(shorter[i].id == id);
        }
    }
}

/// What is left after a deletion: no task with the identifier, every task
/// that stays is one of the list, and distinct identifiers stay distinct.
pub proof fn lemma_without_id_keeps(tasks: Seq<TaskModel>, id: u32)
    ensures
        !has_id(without_id(tasks, id), id),
        without_id(tasks, id).len() <= tasks.len(),
        forall|i: int|
            0 <= i < without_id(tasks, id).len() ==> tasks.contains(
                #[trigger] without_id(tasks, id)[i],
            ),
        ids_distinct(tasks) ==> ids_distinct(without_id(tasks, id)),
    decreases tasks.len(),
{
    let kept = without_id(tasks, id);
    if tasks.len() == 0 {
        lemma_without_id_empty(id);
        assert(tasks =~= Seq::<TaskModel>::empty());
    } else {
        let rest = tasks.drop_last();
        let last = tasks.last();
        let kept_rest = without_id(rest, id);
        lemma_without_id_keeps(rest, id);
        assert(tasks =~= rest.push(last));
        rest.lemma_filter_push(last, |t: TaskModel| t.id != id);
        assert forall|i: int| 0 <= i < kept.len() implies tasks.contains(#[trigger] kept[i]) by {
            if i < kept_rest.len() {
                assert(rest.contains(kept_rest[i]));
                let j = choose|j: int| 0 <= j < rest.len() && rest[j] == kept_rest[i];
                assert(tasks[j] == kept[i]);
            } else {
                assert(tasks[tasks.len() - 1] == kept[i]);
            }
        }
        if ids_distinct(tasks) {
            assert forall|i: int, j: int| 0 <= i < j < rest.len() implies (#[trigger] rest[i]).id
                != (#[trigger] rest[j]).id by {
                assert(tasks[i].id != tasks[j].id);
            }
            assert forall|i: int, j: int| 0 <= i < j < kept.len() implies (#[trigger] kept[i]).id
                != (#[trigger] kept[j]).id by {
                if j < kept_rest.len() {
                    assert(kept_rest[i].id != kept_rest[j].id);
                } else {
                    assert(rest.contains(kept_rest[i]));
                    let m = choose|m: int| 0 <= m < rest.len() && rest[m] == kept_rest[i];
                    assert(tasks[m].id != tasks[tasks.len() - 1].id);
                }
            }
        }
        if has_id(kept, id) {
            let i = choose|i: int| 0 <= i < kept.len() && (#[trigger] kept[i]).id == id;
            if i < kept_rest.len() {
                assert(kept_rest[i].id == id);
            }
        }
    }
}

/// Deleting an identifier that no task has changes nothing.
pub proof fn lemma_without_absent_id(tasks: Seq<TaskModel>, id: u32)
    requires
        !has_id(tasks, id),
    ensures
        without_id(tasks, id) == tasks,
    decreases tasks.len(),
{
    if tasks.len() == 0 {
        lemma_without_id_empty(id);
        assert(tasks =~= Seq::<TaskModel>::empty());
    } else {
        let rest = tasks.drop_last();
        let last = tasks.last();
        assert(tasks[tasks.len() - 1].id != id);
        if has_id(rest, id) {
            let i = choose|i: int| 0 <= i < rest.len() && (#[trigger] rest[i]).id == id;
            assert(tasks[i].id == id);
        }
        lemma_without_absent_id(rest, id);
        assert(tasks =~= rest.push(last));
        rest.lemma_filter_push(last, |t: TaskModel| t.id != id);
    }
}

/// Completing an identifier that no task has changes nothing.
pub proof fn lemma_completed_absent_id(tasks: Seq<TaskModel>, id: u32)
    requires
        !has_id(tasks, id),
    ensures
        completed(tasks, id) == tasks,
{
    assert forall|i: int| 0 <= i < tasks.len() implies !is_first_with_id(tasks, id, i) by {
        if tasks[i].id == id {
            assert(has_id(tasks, id));
        }
    }
    assert(completed(tasks, id) =~= tasks);
}

/// Completing keeps every task in its place with its identifier and its
/// description; only the status of one task may change, and only to done.
pub proof fn lemma_completed_keeps(tasks: Seq<TaskModel>, id: u32)
    ensures
        completed(tasks, id).len() == tasks.len(),
        forall|i: int|
            0 <= i < tasks.len() ==> {
                &&& (#[trigger] completed(tasks, id)[i]).id == tasks[i].id
                &&& completed(tasks, id)[i].description == tasks[i].description
                &&& (completed(tasks, id)[i].status == tasks[i].status || completed(
                    tasks,
                    id,
                )[i].status == Status::Done)
                &&& tasks[i].id != id ==> completed(tasks, id)[i] == tasks[i]
            },
        has_id(completed(tasks, id), id) == has_id(tasks, id),
        ids_distinct(completed(tasks, id)) == ids_distinct(tasks),
{
    let after = completed(tasks, id);
    if has_id(tasks, id) {
        let i = choose|i: int| 0 <= i < tasks.len() && (#[trigger] tasks[i]).id == id;
        assert(after[i].id == id);
    }
    if has_id(after, id) {
        let i = choose|i: int| 0 <= i < after.len() && (#[trigger] after[i]).id == id;
        assert(tasks[i].id == id);
    }
    if ids_distinct(tasks) {
        assert forall|i: int, j: int| 0 <= i < j < after.len() implies (#[trigger] after[i]).id
            != (#[trigger] after[j]).id by {
            assert(tasks[i].id != tasks[j].id);
        }
    }
    if ids_distinct(after) {
        assert forall|i: int, j: int| 0 <= i < j < tasks.len() implies (#[trigger] tasks[i]).id
            != (#[trigger] tasks[j]).id by {
            assert(after[i].id != after[j].id);
        }
    }
}

/// Completing is idempotent: when a task has the identifier, the first such
/// task is done after one completion, a second completion finds it again
/// and leaves the list as the first one left it.
pub proof fn lemma_complete_twice(tasks: Seq<TaskModel>, id: u32)
    requires
        has_id(tasks, id),
    ensures
        has_id(completed(tasks, id), id),
        completed(completed(tasks, id), id) == completed(tasks, id),
        forall|i: int|
            is_first_with_id(tasks, id, i) ==> (#[trigger] completed(tasks, id)[i]).status
                == Status::Done,
{
    let once = completed(tasks, id);
    let twice = completed(once, id);
    lemma_completed_keeps(tasks, id);
    assert forall|i: int| 0 <= i < tasks.len() implies is_first_with_id(once, id, i)
        == is_first_with_id(tasks, id, i) by {
        if is_first_with_id(tasks, id, i) {
            assert forall|j: int| 0 <= j < i implies (#[trigger] once[j]).id != id by {
                assert(tasks[j].id != id);
            }
        }
        if is_first_with_id(once, id, i) {
            assert forall|j: int| 0 <= j < i implies (#[trigger] tasks[j]).id != id by {
                assert(once[j].id != id);
            }
        }
    }
    assert(twice =~= once);
}

/// After a deletion the identifier is gone: completing it or deleting it
/// again finds nothing and changes nothing.
pub proof fn lemma_deleted_is_gone(tasks: Seq<TaskModel>, id: u32)
    ensures
        !has_id(without_id(tasks, id), id),
        completed(without_id(tasks, id), id) == without_id(tasks, id),
        without_id(without_id(tasks, id), id) == without_id(tasks, id),
{
    lemma_without_id_keeps(tasks, id);
    lemma_completed_absent_id(without_id(tasks, id), id);
    lemma_without_absent_id(without_id(tasks, id), id);
}

} // verus!
