use todo::model::{Task, TodoError, TodoList};

#[test]
fn task_new_sets_done_false() {
    let t = Task::new(1, "buy bread".to_string());
    assert_eq!(t.id, 1);
    assert_eq!(t.text, "buy bread");
    assert_eq!(t.done, false);
}

#[test]
fn todo_add_creates_unique_id() {
    let mut list = TodoList::new();
    let t1 = list.add("a".to_string()).id;
    let t2 = list.add("b".to_string()).id;
    assert_eq!(t1, 1);
    assert_eq!(t2, 2);
    assert_eq!(list.list().len(), 2);
}

#[test]
fn mark_done_sets_done_true() {
    let mut list = TodoList::new();

    let id = list.add("buy bread".to_string()).id;

    list.mark_done(id).unwrap();
    assert_eq!(list.list()[0].done, true);
}

#[test]
fn mark_done_unkown_id_returns_error() {
    let mut list = TodoList::new();
    let err = list.mark_done(999).unwrap_err();
    assert_eq!(err, TodoError::NotFound(999));
}

#[test]
fn remove_deletes_task() {
    let mut list = TodoList::new();
    let id1 = list.add("a".to_string()).id;
    let _id2 = list.add("b".to_string()).id;

    list.remove(id1).unwrap();
    assert_eq!(list.list().len(), 1);
    assert_eq!(list.list()[0].text, "b");
}

#[test]
fn remove_unknown_id_returns_error() {
    let mut list = TodoList::new();
    let err = list.remove(999).unwrap_err();
    assert_eq!(err, TodoError::NotFound(999));
}

#[test]
fn clear_done_removes_done_tasks() {
    let mut list = TodoList::new();
    let id1 = list.add("a".to_string()).id;
    let id2 = list.add("b".to_string()).id;

    list.mark_done(id1).unwrap();
    let removed = list.clear_done();
    assert_eq!(removed, 1);
    assert_eq!(list.list().len(), 1);
    assert_eq!(list.list()[0].id, id2);
}
