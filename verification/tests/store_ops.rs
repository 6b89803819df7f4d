use panic_context::ContextStore;
use panic_context::ensure_initialized;

#[test]
fn ids_are_assigned_in_sequence() {
    let mut store = ContextStore::new();
    assert_eq!(store.next_id(), 0);
    let a = store.add_entry(Some(String::from("a")));
    let b = store.add_entry(None);
    let c = store.add_entry(Some(String::from("c")));
    assert_eq!((a, b, c), (0, 1, 2));
    assert_eq!(store.next_id(), 3);
    assert_eq!(store.snapshot_ordered(), vec![String::from("a"), String::from("c")]);
}

#[test]
fn update_files_entry_between_older_and_younger() {
    let mut store = ContextStore::new();
    let early = store.add_entry(None);
    store.add_entry(Some(String::from("middle")));
    store.update_entry(early, String::from("first"));
    assert_eq!(store.snapshot_ordered(), vec![String::from("first"), String::from("middle")]);
}

#[test]
fn remove_of_absent_id_is_a_noop() {
    let mut store = ContextStore::new();
    let a = store.add_entry(Some(String::from("kept")));
    store.remove_entry(a + 1);
    assert_eq!(store.snapshot_ordered(), vec![String::from("kept")]);
    store.remove_entry(a);
    assert_eq!(store.snapshot_ordered(), Vec::<String>::new());
}

#[test]
fn install_exactly_once() {
    let mut installed = false;
    assert!(ensure_initialized(&mut installed));
    assert!(installed);
    assert!(!ensure_initialized(&mut installed));
    assert!(!ensure_initialized(&mut installed));
    assert!(installed);
}
