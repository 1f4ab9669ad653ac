use todo::model::{Task, TodoList};
use todo::store::{load, save, Document, FormatError, StoreError, Stored};

fn task(id: u64, text: &str, done: bool) -> Task {
    Task { id, text: text.to_string(), done }
}

#[test]
fn save_then_load_roudtrip() {
    // create todo list
    let mut list = TodoList::new();
    list.add("a".to_string());
    let _id2 = list.add("b".to_string()).id;
    list.mark_done(_id2).unwrap();

    // save and load
    let document = save(&list);
    let loaded = load(Stored::Decoded(document)).unwrap();

    // verify
    assert_eq!(loaded.list().len(), 2);
    assert_eq!(loaded.list()[1].done, true);
}

#[test]
fn load_missing_file_returns_empty_list() {
    let loaded = load(Stored::Missing).unwrap();
    assert_eq!(loaded.list().len(), 0);
    assert_eq!(loaded.next_id(), 1);
}

#[test]
fn save_copies_every_field_in_order() {
    let mut list = TodoList::new();
    list.add("buy bread".to_string());
    list.add("call mom".to_string());
    list.mark_done(2).unwrap();
    let document = save(&list);
    assert_eq!(document.tasks, vec![task(1, "buy bread", false), task(2, "call mom", true)]);
    assert_eq!(document.next_id, 3);
    assert_eq!(list.list(), document.tasks.as_slice());
}

#[test]
fn save_of_empty_list_keeps_next_id() {
    let mut list = TodoList::new();
    list.add("a".to_string());
    list.remove(1).unwrap();
    let document = save(&list);
    assert!(document.tasks.is_empty());
    assert_eq!(document.next_id, 2);
}

#[test]
fn round_trip_gives_back_the_same_collection() {
    let mut list = TodoList::new();
    for text in ["a", "", "c c", "d"] {
        list.add(text.to_string());
    }
    list.mark_done(3).unwrap();
    list.remove(2).unwrap();
    let loaded = load(Stored::Decoded(save(&list))).unwrap();
    assert_eq!(loaded.list(), list.list());
    assert_eq!(
        loaded.list(),
        [task(1, "a", false), task(3, "c c", true), task(4, "d", false)].as_slice()
    );
    assert_eq!(loaded.next_id(), 5);
}

#[test]
fn loaded_collection_goes_on_counting() {
    let tasks = vec![task(2, "b", false), task(5, "e", true)];
    let mut list = load(Stored::Decoded(Document { tasks, next_id: 9 })).unwrap();
    assert_eq!(list.add("next".to_string()).id, 9);
    assert_eq!(list.next_id(), 10);
    assert_eq!(list.clear_done(), 1);
    assert_eq!(list.list(), [task(2, "b", false), task(9, "next", false)].as_slice());
}

#[test]
fn load_accepts_ids_in_any_order() {
    let tasks = vec![task(4, "d", false), task(1, "a", true), task(3, "c", false)];
    let list = load(Stored::Decoded(Document { tasks: tasks.clone(), next_id: 5 })).unwrap();
    assert_eq!(list.list(), tasks.as_slice());
    assert_eq!(list.next_id(), 5);
}

#[test]
fn load_accepts_an_empty_document() {
    let list = load(Stored::Decoded(Document { tasks: vec![], next_id: 0 })).unwrap();
    assert!(list.list().is_empty());
    assert_eq!(list.next_id(), 0);
    let list = load(Stored::Decoded(Document { tasks: vec![], next_id: 1 })).unwrap();
    assert!(list.list().is_empty());
    assert_eq!(list.next_id(), 1);
}

#[test]
fn load_reports_an_unreadable_location() {
    let result = load(Stored::Unreadable("permission denied".to_string()));
    assert_eq!(result.unwrap_err(), StoreError::Io("permission denied".to_string()));
}

#[test]
fn load_reports_undecodable_content() {
    let result = load(Stored::Undecodable("EOF while parsing a value".to_string()));
    assert_eq!(
        result.unwrap_err(),
        StoreError::Format(FormatError::Undecodable("EOF while parsing a value".to_string()))
    );
}

#[test]
fn load_refuses_a_repeated_id() {
    let tasks = vec![task(1, "a", false), task(2, "b", false), task(1, "c", true)];
    let result = load(Stored::Decoded(Document { tasks, next_id: 3 }));
    assert_eq!(result.unwrap_err(), StoreError::Format(FormatError::RepeatedId(1)));
}

#[test]
fn load_refuses_an_id_that_is_not_below_next_id() {
    let tasks = vec![task(1, "a", false), task(3, "b", false)];
    let result = load(Stored::Decoded(Document { tasks, next_id: 3 }));
    assert_eq!(result.unwrap_err(), StoreError::Format(FormatError::IdNotBelowNext(3)));

    let tasks = vec![task(0, "a", false)];
    let result = load(Stored::Decoded(Document { tasks, next_id: 0 }));
    assert_eq!(result.unwrap_err(), StoreError::Format(FormatError::IdNotBelowNext(0)));
}

#[test]
fn load_reports_the_first_fault() {
    let tasks = vec![task(2, "a", false), task(2, "b", false), task(9, "c", false)];
    let result = load(Stored::Decoded(Document { tasks, next_id: 5 }));
    assert_eq!(result.unwrap_err(), StoreError::Format(FormatError::RepeatedId(2)));

    let tasks = vec![task(9, "a", false), task(2, "b", false), task(2, "c", false)];
    let result = load(Stored::Decoded(Document { tasks, next_id: 5 }));
    assert_eq!(result.unwrap_err(), StoreError::Format(FormatError::IdNotBelowNext(9)));

    let tasks = vec![task(7, "a", false), task(7, "b", false)];
    let result = load(Stored::Decoded(Document { tasks, next_id: 5 }));
    assert_eq!(result.unwrap_err(), StoreError::Format(FormatError::IdNotBelowNext(7)));
}

#[test]
fn load_refuses_the_largest_id() {
    let tasks = vec![task(u64::MAX, "a", false)];
    let result = load(Stored::Decoded(Document { tasks, next_id: u64::MAX }));
    assert_eq!(result.unwrap_err(), StoreError::Format(FormatError::IdNotBelowNext(u64::MAX)));
}

#[test]
fn loaded_collection_counts_up_to_the_largest_id() {
    let tasks = vec![task(u64::MAX - 2, "a", false)];
    let mut list = load(Stored::Decoded(Document { tasks, next_id: u64::MAX - 1 })).unwrap();
    assert_eq!(list.add("b".to_string()).id, u64::MAX - 1);
    assert_eq!(list.next_id(), u64::MAX);
    assert_eq!(save(&list).next_id, u64::MAX);
}

#[test]
fn load_hands_the_tasks_over_unchanged() {
    let tasks = vec![task(0, "", true), task(18, "line one\nline two", false)];
    let list = load(Stored::Decoded(Document { tasks: tasks.clone(), next_id: 19 })).unwrap();
    assert_eq!(list.list(), tasks.as_slice());
    assert_eq!(save(&list).tasks, tasks);
}
