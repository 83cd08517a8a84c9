use shell_sessions::session::SessionStore;

#[test]
fn new_store_is_empty() {
    assert_eq!(SessionStore::new().len(), 0);
}

#[test]
fn first_use_opens_a_session() {
    let mut store = SessionStore::new();
    assert_eq!(store.get_or_create("demo"), (0, true));
    assert_eq!(store.len(), 1);
}

#[test]
fn same_name_gives_same_slot() {
    let mut store = SessionStore::new();
    assert_eq!(store.get_or_create("a"), (0, true));
    assert_eq!(store.get_or_create("b"), (1, true));
    assert_eq!(store.get_or_create("a"), (0, false));
    assert_eq!(store.get_or_create("b"), (1, false));
    assert_eq!(store.len(), 2);
}

#[test]
fn different_names_give_different_slots() {
    let mut store = SessionStore::new();
    let first = store.get_or_create("one");
    let second = store.get_or_create("two");
    let third = store.get_or_create("");
    assert_eq!((first, second, third), ((0, true), (1, true), (2, true)));
}

#[test]
fn names_differ_by_case_and_space() {
    let mut store = SessionStore::new();
    assert_eq!(store.get_or_create("demo"), (0, true));
    assert_eq!(store.get_or_create("Demo"), (1, true));
    assert_eq!(store.get_or_create("demo "), (2, true));
    assert_eq!(store.get_or_create("demo"), (0, false));
}
