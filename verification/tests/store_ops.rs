use reminders::store::ReminderStore;

const T0: i64 = 1_700_000_000;

#[test]
fn new_store_is_empty() {
    let store = ReminderStore::new();
    assert_eq!(store.len(), 0);
    assert!(store.list().is_empty());
}

#[test]
fn add_then_list_shows_exactly_one_matching_row() {
    let mut store = ReminderStore::new();
    let added = store.add(42, T0 + 5, String::from("buy milk"));
    let rows = store.list();
    assert_eq!(rows.len(), 1);
    assert_eq!(rows[0].id, added.id);
    assert_eq!(rows[0].owner, 42);
    assert_eq!(rows[0].due_at, T0 + 5);
    assert_eq!(rows[0].message, "buy milk");
    assert_eq!(added.id, 1);
}

#[test]
fn ids_are_fresh_and_unique() {
    let mut store = ReminderStore::new();
    let a = store.add(1, T0, String::from("a"));
    let b = store.add(1, T0, String::from("a"));
    let c = store.add(2, T0 + 1, String::from("c"));
    assert_ne!(a.id, b.id);
    assert_ne!(a.id, c.id);
    assert_ne!(b.id, c.id);
    assert_eq!(store.len(), 3);
}

#[test]
fn remove_deletes_only_the_named_row() {
    let mut store = ReminderStore::new();
    let a = store.add(1, T0, String::from("first"));
    let b = store.add(2, T0 + 1, String::from("second"));
    let c = store.add(3, T0 + 2, String::from("third"));
    store.remove(b.id);
    let rows = store.list();
    assert_eq!(rows.len(), 2);
    assert_eq!(rows[0].id, a.id);
    assert_eq!(rows[0].message, "first");
    assert_eq!(rows[1].id, c.id);
    assert_eq!(rows[1].message, "third");
}

#[test]
fn remove_twice_is_a_no_op() {
    let mut store = ReminderStore::new();
    let a = store.add(1, T0, String::from("only"));
    let b = store.add(2, T0, String::from("kept"));
    store.remove(a.id);
    assert_eq!(store.len(), 1);
    store.remove(a.id);
    let rows = store.list();
    assert_eq!(rows.len(), 1);
    assert_eq!(rows[0].id, b.id);
    assert_eq!(rows[0].message, "kept");
}

#[test]
fn remove_unknown_id_is_a_no_op() {
    let mut store = ReminderStore::new();
    let a = store.add(1, T0, String::from("stays"));
    store.remove(a.id + 100);
    store.remove(-7);
    let rows = store.list();
    assert_eq!(rows.len(), 1);
    assert_eq!(rows[0].id, a.id);
    assert_eq!(rows[0].message, "stays");
}

#[test]
fn removed_id_is_never_reused() {
    let mut store = ReminderStore::new();
    let a = store.add(1, T0, String::from("a"));
    store.remove(a.id);
    let b = store.add(1, T0, String::from("b"));
    assert_ne!(a.id, b.id);
    assert_eq!(b.id, 2);
}

#[test]
fn row_access_matches_list() {
    let mut store = ReminderStore::new();
    store.add(5, T0, String::from("x"));
    store.add(6, T0 + 1, String::from("y"));
    assert_eq!(store.row(0).owner, 5);
    assert_eq!(store.row(1).owner, 6);
    assert_eq!(store.row(1).message, store.list()[1].message);
}
