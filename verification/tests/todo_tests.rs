use todos::record::{Bin, FieldValue, RawRecord, Todo};
use todos::store::{DeleteStatus, Todos};

const WARNING: &str = "WARNING! Received unexpected string from database!";

fn rec(id: i64, task: &str, done: bool) -> RawRecord {
    RawRecord {
        key: Some(FieldValue::Int(id)),
        bins: vec![
            Bin { name: "task".to_string(), value: FieldValue::Text(task.to_string()) },
            Bin { name: "is_complete".to_string(), value: FieldValue::Flag(done) },
        ],
    }
}

/// What the unverified driver does for `create`: check the local guard,
/// issue the remote write, and commit its outcome. `remote_ok` stands for
/// the remote call's result; the return value says whether a write was
/// attempted at all.
fn driver_create(store: &mut Todos, task: &str, id: i64, remote_ok: bool) -> bool {
    if store.has_todo(id) {
        return false;
    }
    store.create_todo(task.to_string(), id, remote_ok);
    true
}

fn ids(store: &Todos) -> Vec<i64> {
    let mut v = Vec::new();
    let mut i = 0;
    while i < store.len() {
        v.push(store.get(i).id);
        i += 1;
    }
    v
}

#[test]
fn create_adds_exactly_one() {
    let mut store = Todos::new();
    assert!(driver_create(&mut store, "learn rust", 1, true));
    assert_eq!(store.len(), 1);
    assert_eq!(store.get(0).id, 1);
    assert_eq!(store.get(0).task, "learn rust");
    assert!(!store.get(0).is_complete);
    // A second create with the same id is a guarded no-op.
    assert!(!driver_create(&mut store, "something else", 1, true));
    assert_eq!(store.len(), 1);
    assert_eq!(store.get(0).task, "learn rust");
    assert!(!store.get(0).is_complete);
}

#[test]
fn create_failed_write_leaves_cache_unchanged() {
    let mut store = Todos::new();
    assert!(driver_create(&mut store, "unreachable store", 4, false));
    assert_eq!(store.len(), 0);
    assert!(!store.has_todo(4));
}

#[test]
fn delete_removes_exactly_that_entry() {
    let mut store = Todos::new();
    driver_create(&mut store, "one", 1, true);
    driver_create(&mut store, "two", 2, true);
    driver_create(&mut store, "three", 3, true);
    store.delete_todo(2, DeleteStatus::Removed);
    assert_eq!(ids(&store), vec![1, 3]);
    assert_eq!(store.get(0).task, "one");
    assert_eq!(store.get(1).task, "three");
}

#[test]
fn delete_of_absent_key_changes_nothing() {
    let mut store = Todos::new();
    driver_create(&mut store, "one", 1, true);
    store.delete_todo(9, DeleteStatus::Missing);
    assert_eq!(ids(&store), vec![1]);
    // Even a reported deletion of an id that is not cached leaves the
    // cache as it was.
    store.delete_todo(9, DeleteStatus::Removed);
    assert_eq!(ids(&store), vec![1]);
}

#[test]
fn delete_failure_changes_nothing() {
    let mut store = Todos::new();
    driver_create(&mut store, "one", 1, true);
    store.delete_todo(1, DeleteStatus::Failed);
    assert_eq!(ids(&store), vec![1]);
    assert!(!store.get(0).is_complete);
}

#[test]
fn complete_sets_only_that_flag() {
    let mut store = Todos::new();
    driver_create(&mut store, "one", 1, true);
    driver_create(&mut store, "two", 2, true);
    store.complete_todo(2, true);
    assert_eq!(store.len(), 2);
    assert_eq!(store.get(0).id, 1);
    assert_eq!(store.get(0).task, "one");
    assert!(!store.get(0).is_complete);
    assert_eq!(store.get(1).id, 2);
    assert_eq!(store.get(1).task, "two");
    assert!(store.get(1).is_complete);
}

#[test]
fn complete_of_uncached_id_or_failed_update_changes_nothing() {
    let mut store = Todos::new();
    driver_create(&mut store, "one", 1, true);
    // The remote update succeeded but no matching item is cached.
    store.complete_todo(9, true);
    assert_eq!(ids(&store), vec![1]);
    assert!(!store.get(0).is_complete);
    // The remote update failed.
    store.complete_todo(1, false);
    assert!(!store.get(0).is_complete);
}

#[test]
fn load_all_twice_doubles_the_entries() {
    let mut store = Todos::new();
    let batch = || vec![rec(2, "make a todo app", false), rec(3, "test the todo app", true)];
    store.load_all(batch());
    assert_eq!(ids(&store), vec![2, 3]);
    store.load_all(batch());
    assert_eq!(ids(&store), vec![2, 3, 2, 3]);
    let twos = ids(&store).iter().filter(|&&i| i == 2).count();
    assert_eq!(twos, 2);
    assert_eq!(store.get(2).task, "make a todo app");
    assert!(store.get(3).is_complete);
}

#[test]
fn decode_missing_task_yields_warning() {
    let raw = RawRecord {
        key: Some(FieldValue::Int(7)),
        bins: vec![Bin { name: "is_complete".to_string(), value: FieldValue::Flag(true) }],
    };
    let todo = Todo::parse_todo(raw);
    assert_eq!(todo.id, 7);
    assert_eq!(todo.task, WARNING);
    assert!(todo.is_complete);
}

#[test]
fn decode_wrongly_typed_task_yields_warning() {
    let raw = RawRecord {
        key: Some(FieldValue::Int(7)),
        bins: vec![
            Bin { name: "task".to_string(), value: FieldValue::Int(42) },
            Bin { name: "is_complete".to_string(), value: FieldValue::Flag(false) },
        ],
    };
    assert_eq!(Todo::parse_todo(raw).task, WARNING);
}

#[test]
fn decode_key_fallbacks_to_zero() {
    let no_key = RawRecord { key: None, bins: vec![] };
    assert_eq!(Todo::parse_todo(no_key).id, 0);
    let text_key = RawRecord { key: Some(FieldValue::Text("7".to_string())), bins: vec![] };
    assert_eq!(Todo::parse_todo(text_key).id, 0);
}

#[test]
fn decode_completion_fallbacks_to_false() {
    let missing = RawRecord { key: Some(FieldValue::Int(1)), bins: vec![] };
    assert!(!Todo::parse_todo(missing).is_complete);
    let wrong_type = RawRecord {
        key: Some(FieldValue::Int(1)),
        bins: vec![Bin { name: "is_complete".to_string(), value: FieldValue::Text("yes".to_string()) }],
    };
    assert!(!Todo::parse_todo(wrong_type).is_complete);
}

#[test]
fn decode_takes_first_matching_field() {
    let raw = RawRecord {
        key: Some(FieldValue::Int(1)),
        bins: vec![
            Bin { name: "other".to_string(), value: FieldValue::Other },
            Bin { name: "task".to_string(), value: FieldValue::Text("first".to_string()) },
            Bin { name: "task".to_string(), value: FieldValue::Text("second".to_string()) },
        ],
    };
    assert_eq!(Todo::parse_todo(raw).task, "first");
}

#[test]
fn end_to_end_trace() {
    // Mirrors a run against a store that already holds ids 2..=5.
    let mut store = Todos::new();
    store.load_all(vec![
        rec(3, "test the todo app", false),
        rec(2, "make a todo app", false),
        rec(5, "my new task", false),
        rec(4, "profit", false),
    ]);
    // A fresh id is written and cached.
    assert!(driver_create(&mut store, "learn rust", 1, true));
    assert!(store.has_todo(1));
    // Ids already cached are guarded no-ops, each with a warning.
    assert!(!driver_create(&mut store, "make a todo app", 2, true));
    assert!(!driver_create(&mut store, "test the todo app", 3, true));
    assert!(!driver_create(&mut store, "profit", 4, true));
    assert_eq!(ids(&store), vec![3, 2, 5, 4, 1]);
    // The freshly created record is deleted again.
    store.delete_todo(1, DeleteStatus::Removed);
    assert_eq!(ids(&store), vec![3, 2, 5, 4]);
    // Id 2 is marked complete, remotely and in the cache.
    store.complete_todo(2, true);
    assert!(store.get(1).is_complete);
    assert!(!store.get(0).is_complete);
    // Id 5 was already created earlier: a guarded no-op again.
    assert!(!driver_create(&mut store, "my new task", 5, true));
    assert_eq!(ids(&store), vec![3, 2, 5, 4]);
    assert_eq!(store.get(2).task, "my new task");
}
