use task_tracker::store::{LoadError, TaskStore};
use task_tracker::task::{Status, Task};

fn task(id: u32, description: &str, status: Status) -> Task {
    Task { id, description: description.to_string(), status }
}

#[test]
fn new_store_is_empty_and_counts_from_one() {
    let store = TaskStore::new();
    assert!(store.is_empty());
    assert_eq!(store.len(), 0);
    assert_eq!(store.next_id(), 1);
    assert!(!store.is_full());
    assert!(store.list().is_empty());
}

#[test]
fn adds_give_count_plus_one_and_keep_descriptions() {
    let mut store = TaskStore::new();
    let descriptions = ["one", "", "three  spaces", "caf\u{e9}", "one"];
    let mut last = 0;
    for (count, description) in descriptions.iter().enumerate() {
        let id = store.add_task(description);
        assert_eq!(id as usize, count + 1);
        assert!(id > last);
        last = id;
    }
    assert_eq!(store.len(), 5);
    assert_eq!(store.next_id(), 6);
    for (i, t) in store.list().iter().enumerate() {
        assert_eq!(t.id as usize, i + 1);
        assert_eq!(t.description, descriptions[i]);
        assert_eq!(t.status, Status::InProgress);
    }
}

#[test]
fn add_task_returns_the_id_of_the_new_task() {
    let mut store = TaskStore::new();
    let id = store.add_task("Buy milk");
    assert_eq!(id, 1);
    assert_eq!(store.list().to_vec(), vec![task(1, "Buy milk", Status::InProgress)]);
    let id = store.add_task("Walk dog");
    assert_eq!(id, 2);
    assert_eq!(
        store.list().to_vec(),
        vec![task(1, "Buy milk", Status::InProgress), task(2, "Walk dog", Status::InProgress)]
    );
    assert_eq!(store.list().last().unwrap().id, id);
}

#[test]
fn add_task_keeps_the_description_as_given() {
    let mut store = TaskStore::new();
    for description in ["", "  padded  ", "\ttab\n", "caf\u{e9} \u{1f600}", "Done"] {
        let id = store.add_task(description);
        let last = store.list().last().unwrap();
        assert_eq!(last.id, id);
        assert_eq!(last.description, description);
        assert_eq!(last.description.as_bytes(), description.as_bytes());
        assert_eq!(last.status, Status::InProgress);
    }
    assert_eq!(store.len(), 5);
    assert_eq!(store.list()[1].description, "  padded  ");
}

#[test]
fn a_new_id_is_above_all_and_differs_from_all() {
    let mut store = TaskStore::new();
    assert_eq!(store.add_task("a"), 1);
    assert_eq!(store.add_task("b"), 2);
    assert!(store.delete(1));
    // The store holds only the identifier 2: the new one is not 2.
    let id = store.add_task("c");
    assert_eq!(id, 3);
    let mut store = TaskStore::from_tasks(vec![
        task(9, "i", Status::Done),
        task(4, "d", Status::InProgress),
    ])
    .unwrap();
    let id = store.add_task("j");
    assert_eq!(id, 10);
    assert!(store.list()[..2].iter().all(|t| t.id >= 1 && t.id < id));
}

#[test]
fn a_deleted_id_is_not_given_out_again() {
    let mut store = TaskStore::new();
    assert_eq!(store.add_task("a"), 1);
    assert_eq!(store.add_task("b"), 2);
    assert!(store.delete(1));
    assert_eq!(store.add_task("c"), 3);
    assert!(store.delete(3));
    assert_eq!(store.add_task("d"), 4);
    assert_eq!(
        store.list().to_vec(),
        vec![task(2, "b", Status::InProgress), task(4, "d", Status::InProgress)]
    );
}

#[test]
fn complete_is_idempotent() {
    let mut store = TaskStore::new();
    store.add_task("a");
    store.add_task("b");
    assert!(store.complete(2));
    let once = store.list().to_vec();
    assert_eq!(once[1].status, Status::Done);
    assert!(store.complete(2));
    assert_eq!(store.list().to_vec(), once);
    assert_eq!(store.list()[1].status, Status::Done);
    assert_eq!(store.list()[0].status, Status::InProgress);
}

#[test]
fn a_deleted_id_is_not_found_again() {
    let mut store = TaskStore::new();
    store.add_task("a");
    store.add_task("b");
    assert!(store.delete(1));
    let left = store.list().to_vec();
    assert!(!store.complete(1));
    assert_eq!(store.list().to_vec(), left);
    assert!(!store.delete(1));
    assert_eq!(store.list().to_vec(), left);
    assert_eq!(left, vec![task(2, "b", Status::InProgress)]);
}

#[test]
fn complete_on_an_empty_store_finds_nothing() {
    let mut store = TaskStore::new();
    assert!(!store.complete(99));
    assert!(store.is_empty());
    assert_eq!(store.next_id(), 1);
}

#[test]
fn delete_on_an_empty_store_finds_nothing() {
    let mut store = TaskStore::new();
    assert!(!store.delete(99));
    assert!(store.is_empty());
    assert_eq!(store.next_id(), 1);
}

#[test]
fn buy_milk_walk_dog() {
    let mut store = TaskStore::new();
    assert_eq!(store.add_task("Buy milk"), 1);
    assert_eq!(store.list()[0].status, Status::InProgress);
    assert_eq!(store.add_task("Walk dog"), 2);
    assert!(store.complete(1));
    assert_eq!(
        store.list().to_vec(),
        vec![task(1, "Buy milk", Status::Done), task(2, "Walk dog", Status::InProgress)]
    );
    assert!(store.delete(2));
    assert_eq!(store.list().to_vec(), vec![task(1, "Buy milk", Status::Done)]);
    let text = store.to_json().unwrap();
    let loaded = TaskStore::load(Some(text.as_bytes())).unwrap();
    assert_eq!(loaded.list().to_vec(), vec![task(1, "Buy milk", Status::Done)]);
    assert_eq!(loaded.len(), 1);
}

#[test]
fn from_tasks_keeps_order_and_counts_on_from_the_largest_id() {
    let tasks = vec![
        task(7, "g", Status::Done),
        task(2, "b", Status::InProgress),
        task(5, "e", Status::InProgress),
    ];
    let mut store = TaskStore::from_tasks(tasks.clone()).unwrap();
    assert_eq!(store.list().to_vec(), tasks);
    assert_eq!(store.next_id(), 8);
    assert_eq!(store.add_task("h"), 8);
}

#[test]
fn from_tasks_of_nothing_is_the_empty_store() {
    let store = TaskStore::from_tasks(Vec::new()).unwrap();
    assert!(store.is_empty());
    assert_eq!(store.next_id(), 1);
}

#[test]
fn from_tasks_refuses_the_id_zero() {
    let tasks = vec![task(1, "a", Status::Done), task(0, "z", Status::InProgress)];
    assert_eq!(TaskStore::from_tasks(tasks).unwrap_err(), LoadError::InvalidRecord);
}

#[test]
fn from_tasks_refuses_equal_ids() {
    let tasks = vec![
        task(1, "a", Status::Done),
        task(2, "b", Status::InProgress),
        task(1, "c", Status::InProgress),
    ];
    assert_eq!(TaskStore::from_tasks(tasks).unwrap_err(), LoadError::DuplicateId);
}

#[test]
fn from_tasks_names_the_zero_before_the_duplicate() {
    let tasks = vec![task(3, "a", Status::Done), task(3, "b", Status::Done), task(0, "c", Status::Done)];
    assert_eq!(TaskStore::from_tasks(tasks).unwrap_err(), LoadError::InvalidRecord);
}

#[test]
fn a_store_with_the_largest_id_is_full() {
    let tasks = vec![task(u32::MAX, "last", Status::InProgress), task(1, "a", Status::Done)];
    let mut store = TaskStore::from_tasks(tasks.clone()).unwrap();
    assert!(store.is_full());
    assert_eq!(store.next_id(), 4294967296);
    assert!(store.complete(u32::MAX));
    assert!(store.delete(1));
    assert!(store.is_full());
    assert_eq!(store.list().to_vec(), vec![task(u32::MAX, "last", Status::Done)]);
}

#[test]
fn the_last_id_fills_the_store() {
    let mut store =
        TaskStore::from_tasks(vec![task(u32::MAX - 2, "a", Status::InProgress)]).unwrap();
    assert!(!store.is_full());
    assert_eq!(store.add_task("b"), u32::MAX - 1);
    assert!(!store.is_full());
    assert_eq!(store.add_task("c"), u32::MAX);
    assert!(store.is_full());
    assert_eq!(store.next_id(), 4294967296);
    assert_eq!(store.list().last().unwrap().id, u32::MAX);
}
