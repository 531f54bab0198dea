//! The task store: an ordered list of tasks together with the counter from
//! which new identifiers are taken.
//!
//! Identifiers come from the counter and never from the length of the list,
//! so a deleted identifier is not given out again. The counter is wider than
//! an identifier: it goes from 1 to one past the largest identifier, where
//! none is left.

use vstd::prelude::*;
use crate::ops::{
    appended, completed, delete_task, has_id, ids_distinct, lemma_completed_keeps,
    lemma_without_id_keeps, mark_complete, without_id,
};
use crate::task::{models, Status, Task, TaskModel};

verus! {

/// What a store is, as a mathematical value: its tasks in insertion order and
/// the counter, which is the identifier that the next new task gets.
pub struct StoreModel {
    pub tasks: Seq<TaskModel>,
    pub next_id: int,
}

/// The largest identifier in a list, 0 for the empty list.
pub open spec fn highest_id(tasks: Seq<TaskModel>) -> u32
    decreases tasks.len(),
{
    if tasks.len() == 0 {
        0
    } else {
        let rest = highest_id(tasks.drop_last());
        if tasks.last().id > rest {
            tasks.last().id
        } else {
            rest
        }
    }
}

/// The number that follows the largest identifier of a list, 1 for the
/// empty list.
pub open spec fn fresh_id(tasks: Seq<TaskModel>) -> int {
    highest_id(tasks) + 1
}

impl StoreModel {
    /// The store with no task, whose first identifier is 1.
    pub open spec fn empty() -> StoreModel {
        StoreModel { tasks: Seq::empty(), next_id: 1 }
    }

    /// The store that holds these tasks and counts on from their largest
    /// identifier.
    pub open spec fn holding(tasks: Seq<TaskModel>) -> StoreModel {
        StoreModel { tasks, next_id: fresh_id(tasks) }
    }

    /// The invariant of a store: identifiers are positive, pairwise distinct
    /// and below the counter, and the counter is at most one past the largest
    /// identifier there is.
    pub open spec fn wf(self) -> bool {
        &&& 1 <= self.next_id <= u32::MAX + 1
        &&& ids_distinct(self.tasks)
        &&& forall|i: int|
            0 <= i < self.tasks.len() ==> 1 <= (#[trigger] self.tasks[i]).id < self.next_id
    }

    /// Whether the identifiers are used up, so that no task can be added:
    /// the counter is past the largest identifier there is.
    pub open spec fn full(self) -> bool {
        self.next_id > u32::MAX
    }

    /// Whether the counter is the number of tasks plus one, as it is in a
    /// store that started empty and only had tasks added.
    pub open spec fn dense(self) -> bool {
        self.next_id == self.tasks.len() + 1
    }

    /// The store after a task with this description was added.
    pub open spec fn add(self, description: Seq<char>) -> StoreModel {
        StoreModel {
            tasks: appended(self.tasks, self.next_id as u32, description),
            next_id: self.next_id + 1,
        }
    }

    /// The store after the task with this identifier was completed.
    pub open spec fn complete(self, id: u32) -> StoreModel {
        StoreModel { tasks: completed(self.tasks, id), next_id: self.next_id }
    }

    /// The store after the task with this identifier was deleted.
    pub open spec fn delete(self, id: u32) -> StoreModel {
        StoreModel { tasks: without_id(self.tasks, id), next_id: self.next_id }
    }

    /// The store after tasks with these descriptions were added in turn.
    pub open spec fn add_all(self, descriptions: Seq<Seq<char>>) -> StoreModel
        decreases descriptions.len(),
    {
        if descriptions.len() == 0 {
            self
        } else {
            self.add_all(descriptions.drop_last()).add(descriptions.last())
        }
    }
}

/// Why a list of tasks, or the file it was read from, makes no store.
#[derive(Clone, Copy, Debug, PartialEq, Eq, Structural)]
pub enum LoadError {
    /// The text is not a JSON array of objects.
    Malformed,
    /// A record lacks a field, holds one of the wrong kind, names no status,
    /// or has the identifier 0.
    InvalidRecord,
    /// Two records have the same identifier.
    DuplicateId,
}

/// The store that a list of tasks makes, or why it makes none.
pub open spec fn restored(tasks: Seq<TaskModel>) -> Result<StoreModel, LoadError> {
    if exists|i: int| 0 <= i < tasks.len() && (#[trigger] tasks[i]).id == 0 {
        Err(LoadError::InvalidRecord)
    } else if !ids_distinct(tasks) {
        Err(LoadError::DuplicateId)
    } else {
        Ok(StoreModel::holding(tasks))
    }
}

/// The in-memory collection of tasks.
#[derive(Debug)]
pub struct TaskStore {
    tasks: Vec<Task>,
    next_id: u64,
}

impl View for TaskStore {
    type V = StoreModel;

    closed spec fn view(&self) -> StoreModel {
        StoreModel { tasks: models(self.tasks@), next_id: self.next_id as int }
    }
}

impl TaskStore {
    /// Whether the store meets its invariant.
    pub open spec fn wf(&self) -> bool {
        self@.wf()
    }

    /// A store with no task.
    pub fn new() -> (store: TaskStore)
        ensures
            store.wf(),
            store@ == StoreModel::empty(),
    {
        let store = TaskStore { tasks: Vec::new(), next_id: 1 };
        assert(store@.tasks =~= Seq::<TaskModel>::empty());
        store
    }

    /// The store that holds the given tasks in the given order, if their
    /// identifiers are positive and distinct. Its counter follows their
    /// largest identifier.
    pub fn from_tasks(tasks: Vec<Task>) -> (res: Result<TaskStore, LoadError>)
        ensures
            match res {
                Ok(store) => store.wf() && restored(models(tasks@)) == Ok::<StoreModel, LoadError>(
                    store@,
                ),
                Err(e) => restored(models(tasks@)) == Err::<StoreModel, LoadError>(e),
            },
    {
        let ghost list = models(tasks@);
        let mut i: usize = 0;
        let mut highest: u32 = 0;
        proof {
            assert(list.take(0) =~= Seq::<TaskModel>::empty());
        }
        while i < tasks.len()
            invariant
                i <= tasks.len(),
                list == models(tasks@),
                forall|j: int| 0 <= j < i ==> (#[trigger] list[j]).id != 0,
                highest == highest_id(list.take(i as int)),
            decreases tasks.len() - i,
        {
            if tasks[i].id == 0 {
                assert(list[i as int].id == 0);
                return Err(LoadError::InvalidRecord);
            }
            proof {
                assert(list.take(i + 1).drop_last() =~= list.take(i as int));
                assert(list.take(i + 1).last() == list[i as int]);
            }
            if tasks[i].id > highest {
                highest = tasks[i].id;
            }
            i += 1;
        }
        proof {
            assert(list.take(i as int) =~= list);
        }
        let mut j: usize = 0;
        while j < tasks.len()
            invariant
                j <= tasks.len(),
                list == models(tasks@),
                forall|a: int| 0 <= a < list.len() ==> (#[trigger] list[a]).id != 0,
                forall|a: int, b: int|
                    0 <= a < b < j ==> (#[trigger] list[a]).id != (#[trigger] list[b]).id,
            decreases tasks.len() - j,
        {
            let mut k: usize = 0;
            while k < j
                invariant
                    k <= j < tasks.len(),
                    list == models(tasks@),
                    forall|a: int| 0 <= a < list.len() ==> (#[trigger] list[a]).id != 0,
                    forall|a: int| 0 <= a < k ==> (#[trigger] list[a]).id != list[j as int].id,
                decreases j - k,
            {
                if tasks[k].id == tasks[j].id {
                    assert(list[k as int].id == list[j as int].id);
                    return Err(LoadError::DuplicateId);
                }
                k += 1;
            }
            j += 1;
        }
        let next_id: u64 = highest as u64 + 1;
        proof {
            lemma_holding_wf(list);
        }
        Ok(TaskStore { tasks, next_id })
    }

    /// Adds a task in progress with this description at the end and returns
    /// its identifier. The identifier is the counter's value, so it is
    /// positive and above every identifier in the store; in a store that only
    /// had tasks added it is the number of tasks plus one.
    pub fn add_task(&mut self, desc: &str) -> (id: u32)
        requires
            old(self).wf(),
            !old(self)@.full(),
        ensures
            final(self).wf(),
            final(self)@ == old(self)@.add(desc@),
            id == old(self)@.next_id,
            id >= 1,
            !has_id(old(self)@.tasks, id),
            forall|i: int|
                0 <= i < old(self)@.tasks.len() ==> (#[trigger] old(self)@.tasks[i]).id < id,
            old(self)@.dense() ==> id == old(self)@.tasks.len() + 1 && final(self)@.dense(),
    {
        let id: u32 = self.next_id as u32;
        let task = Task { id, description: desc.to_owned(), status: Status::InProgress };
        self.tasks.push(task);
        self.next_id = self.next_id + 1;
        proof {
            assert(self@.tasks =~= appended(old(self)@.tasks, id, desc@));
            lemma_add_gives_a_new_id(old(self)@, desc@);
        }
        id
    }

    /// All tasks in insertion order, to read.
    pub fn list(&self) -> (tasks: &[Task])
        ensures
            models(tasks@) == self@.tasks,
    {
        self.tasks.as_slice()
    }

    /// The number of tasks.
    pub fn len(&self) -> (n: usize)
        ensures
            n == self@.tasks.len(),
    {
        self.tasks.len()
    }

    /// Whether the store holds no task.
    pub fn is_empty(&self) -> (empty: bool)
        ensures
            empty == (self@.tasks.len() == 0),
    {
        self.tasks.len() == 0
    }

    /// The counter: the identifier that the next new task gets, or one past
    /// the largest identifier where none is left.
    pub fn next_id(&self) -> (id: u64)
        ensures
            id == self@.next_id,
    {
        self.next_id
    }

    /// Whether the identifiers are used up. `add_task` asks that they are not.
    pub fn is_full(&self) -> (full: bool)
        ensures
            full == self@.full(),
    {
        self.next_id > u32::MAX as u64
    }

    /// Marks the task with this identifier as done. Returns whether the store
    /// has such a task; if not, nothing changes.
    pub fn complete(&mut self, id: u32) -> (found: bool)
        requires
            old(self).wf(),
        ensures
            final(self).wf(),
            final(self)@ == old(self)@.complete(id),
            found == has_id(old(self)@.tasks, id),
            !found ==> final(self)@ == old(self)@,
    {
        proof {
            lemma_completed_keeps(self@.tasks, id);
        }
        mark_complete(&mut self.tasks, id)
    }

    /// Removes the task with this identifier. Returns whether the store had
    /// such a task; if not, nothing changes.
    pub fn delete(&mut self, id: u32) -> (found: bool)
        requires
            old(self).wf(),
        ensures
            final(self).wf(),
            final(self)@ == old(self)@.delete(id),
            found == has_id(old(self)@.tasks, id),
            !found ==> final(self)@ == old(self)@,
    {
        proof {
            lemma_delete_keeps_wf(self@, id);
        }
        delete_task(&mut self.tasks, id)
    }
}

/// No identifier of a list is above the highest.
pub proof fn lemma_highest_id_bounds(tasks: Seq<TaskModel>)
    ensures
        forall|i: int| 0 <= i < tasks.len() ==> (#[trigger] tasks[i]).id <= highest_id(tasks),
    decreases tasks.len(),
{
    if tasks.len() > 0 {
        lemma_highest_id_bounds(tasks.drop_last());
        assert forall|i: int| 0 <= i < tasks.len() implies (#[trigger] tasks[i]).id <= highest_id(
            tasks,
        ) by {
            if i < tasks.len() - 1 {
                assert(tasks.drop_last()[i].id <= highest_id(tasks.drop_last()));
            }
        }
    }
}

/// A list of positive, distinct identifiers makes a store that meets the
/// invariant.
pub proof fn lemma_holding_wf(tasks: Seq<TaskModel>)
    requires
        ids_distinct(tasks),
        forall|i: int| 0 <= i < tasks.len() ==> (#[trigger] tasks[i]).id != 0,
    ensures
        StoreModel::holding(tasks).wf(),
        restored(tasks) == Ok::<StoreModel, LoadError>(StoreModel::holding(tasks)),
{
    lemma_highest_id_bounds(tasks);
}

/// Adding puts one task at the end, in progress, with the description as it
/// was given, and leaves every task that was there as it was.
pub proof fn lemma_add_keeps_descriptions(store: StoreModel, description: Seq<char>)
    ensures
        store.add(description).tasks.len() == store.tasks.len() + 1,
        store.add(description).tasks.last().description == description,
        store.add(description).tasks.last().status == Status::InProgress,
        forall|i: int|
            0 <= i < store.tasks.len() ==> (#[trigger] store.add(description).tasks[i])
                == store.tasks[i],
{
}

/// While identifiers are left, the identifier of a new task is positive,
/// above every identifier in the store and so not one of them, and the
/// invariant is kept.
pub proof fn lemma_add_gives_a_new_id(store: StoreModel, description: Seq<char>)
    requires
        store.wf(),
        !store.full(),
    ensures
        store.add(description).wf(),
        1 <= store.next_id <= u32::MAX,
        !has_id(store.tasks, store.next_id as u32),
        forall|i: int| 0 <= i < store.tasks.len() ==> (#[trigger] store.tasks[i]).id < store.next_id,
        store.dense() ==> store.add(description).dense(),
{
}

/// A store that only had tasks added has an identifier left as long as it
/// holds fewer tasks than there are identifiers.
pub proof fn lemma_dense_store_has_room(store: StoreModel)
    requires
        store.dense(),
        store.tasks.len() < u32::MAX,
    ensures
        !store.full(),
{
}

/// Tasks added in turn get consecutive identifiers, starting at the counter,
/// in the order of the calls; each keeps its description and is in progress,
/// and the tasks that were there stay as they were.
pub proof fn lemma_add_all(store: StoreModel, descriptions: Seq<Seq<char>>)
    requires
        store.wf(),
        store.next_id + descriptions.len() <= u32::MAX + 1,
    ensures
        store.add_all(descriptions).wf(),
        store.add_all(descriptions).next_id == store.next_id + descriptions.len(),
        store.add_all(descriptions).tasks.len() == store.tasks.len() + descriptions.len(),
        forall|i: int|
            0 <= i < store.tasks.len() ==> (#[trigger] store.add_all(descriptions).tasks[i])
                == store.tasks[i],
        forall|k: int|
            0 <= k < descriptions.len() ==> (#[trigger] store.add_all(
                descriptions,
            ).tasks[store.tasks.len() + k]) == (TaskModel {
                id: (store.next_id + k) as u32,
                description: descriptions[k],
                status: Status::InProgress,
            }),
    decreases descriptions.len(),
{
    if descriptions.len() > 0 {
        let earlier = descriptions.drop_last();
        let before = store.add_all(earlier);
        lemma_add_all(store, earlier);
        lemma_add_gives_a_new_id(before, descriptions.last());
        let after = store.add_all(descriptions);
        assert forall|k: int| 0 <= k < descriptions.len() implies (#[trigger] after.tasks[store.tasks.len()
            + k]) == (TaskModel {
            id: (store.next_id + k) as u32,
            description: descriptions[k],
            status: Status::InProgress,
        }) by {
            if k < earlier.len() {
                assert(after.tasks[store.tasks.len() + k] == before.tasks[store.tasks.len() + k]);
                assert(earlier[k] == descriptions[k]);
            }
        }
        assert forall|i: int| 0 <= i < store.tasks.len() implies (#[trigger] after.tasks[i])
            == store.tasks[i] by {
            assert(after.tasks[i] == before.tasks[i]);
        }
    }
}

/// In a store that started empty and only had tasks added, every task has
/// the number of tasks before it plus one as its identifier, so identifiers
/// rise strictly, and every description is the one that was given.
pub proof fn lemma_adds_count_from_one(descriptions: Seq<Seq<char>>)
    requires
        descriptions.len() <= u32::MAX,
    ensures
        StoreModel::empty().add_all(descriptions).wf(),
        StoreModel::empty().add_all(descriptions).dense(),
        StoreModel::empty().add_all(descriptions).tasks.len() == descriptions.len(),
        forall|k: int|
            0 <= k < descriptions.len() ==> {
                &&& (#[trigger] StoreModel::empty().add_all(descriptions).tasks[k]).id == k + 1
                &&& StoreModel::empty().add_all(descriptions).tasks[k].description
                    == descriptions[k]
                &&& StoreModel::empty().add_all(descriptions).tasks[k].status
                    == Status::InProgress
            },
        forall|i: int, j: int|
            0 <= i < j < descriptions.len() ==> (#[trigger] StoreModel::empty().add_all(
                descriptions,
            ).tasks[i]).id < (#[trigger] StoreModel::empty().add_all(descriptions).tasks[j]).id,
{
    let after = StoreModel::empty().add_all(descriptions);
    lemma_add_all(StoreModel::empty(), descriptions);
    assert forall|k: int| 0 <= k < descriptions.len() implies {
        &&& (#[trigger] after.tasks[k]).id == k + 1
        &&& after.tasks[k].description == descriptions[k]
        &&& after.tasks[k].status == Status::InProgress
    } by {
        assert(after.tasks[StoreModel::empty().tasks.len() + k].id == k + 1);
    }
}

/// Deleting keeps the invariant.
pub proof fn lemma_delete_keeps_wf(store: StoreModel, id: u32)
    requires
        store.wf(),
    ensures
        store.delete(id).wf(),
{
    let kept = without_id(store.tasks, id);
    lemma_without_id_keeps(store.tasks, id);
    assert forall|i: int| 0 <= i < kept.len() implies 1 <= (#[trigger] kept[i]).id
        < store.next_id by {
        assert(store.tasks.contains(kept[i]));
        let j = choose|j: int| 0 <= j < store.tasks.len() && store.tasks[j] == kept[i];
        assert(store.tasks[j].id >= 1);
    }
}

} // verus!
