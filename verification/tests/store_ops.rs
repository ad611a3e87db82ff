use todo_store::store::Store;
use todo_store::store::StoreError;
use todo_store::store::strip_quotes;

fn seeded() -> Store {
    Store::from_items(vec![
        "This".to_string(),
        "Is".to_string(),
        "Working!".to_string(),
    ])
}

#[test]
fn seed_scenario() {
    let mut store = seeded();
    let after_delete = store.remove_first("Is").unwrap();
    assert_eq!(after_delete, vec!["This".to_string(), "Working!".to_string()]);
    let after_post = store.append("Newest");
    assert_eq!(
        after_post,
        vec!["This".to_string(), "Working!".to_string(), "Newest".to_string()]
    );
    let after_patch = store.clear();
    assert_eq!(after_patch, Vec::<String>::new());
    assert_eq!(store.read_all(), Vec::<String>::new());
}

#[test]
fn append_keeps_order() {
    let mut store = Store::new();
    store.append("first");
    store.append("second");
    store.append("third");
    assert_eq!(
        store.read_all(),
        vec!["first".to_string(), "second".to_string(), "third".to_string()]
    );
}

#[test]
fn append_allows_duplicates_and_empty() {
    let mut store = Store::new();
    store.append("x");
    store.append("");
    store.append("x");
    assert_eq!(
        store.read_all(),
        vec!["x".to_string(), "".to_string(), "x".to_string()]
    );
}

#[test]
fn remove_sole_occurrence_leaves_none() {
    let mut store = Store::new();
    store.append("keep");
    store.append("drop");
    let items = store.remove_first("drop").unwrap();
    assert_eq!(items, vec!["keep".to_string()]);
    assert!(!store.read_all().contains(&"drop".to_string()));
}

#[test]
fn remove_first_of_two_leaves_one() {
    let mut store = Store::new();
    store.append("twice");
    store.append("other");
    store.append("twice");
    let items = store.remove_first("twice").unwrap();
    assert_eq!(items, vec!["other".to_string(), "twice".to_string()]);
}

#[test]
fn remove_missing_value_fails_and_changes_nothing() {
    let mut store = seeded();
    let err = store.remove_first("absent").unwrap_err();
    assert_eq!(err, StoreError::NotFound);
    assert_eq!(
        store.read_all(),
        vec!["This".to_string(), "Is".to_string(), "Working!".to_string()]
    );
}

#[test]
fn clear_empties_any_prior_state() {
    let mut empty = Store::new();
    assert_eq!(empty.clear(), Vec::<String>::new());

    let mut full = seeded();
    full.append("more");
    assert_eq!(full.clear(), Vec::<String>::new());
    assert_eq!(full.read_all(), Vec::<String>::new());
}

#[test]
fn distinct_appends_each_present_once() {
    let mut store = Store::new();
    let values: Vec<String> = (0..10).map(|n| format!("client-{}", n)).collect();
    for v in &values {
        store.append(v);
    }
    let items = store.read_all();
    for v in &values {
        assert_eq!(items.iter().filter(|it| *it == v).count(), 1);
    }
}

#[test]
fn quotes_are_stripped_on_append() {
    let mut store = Store::new();
    let items = store.append("\"hello\"");
    assert_eq!(items, vec!["hello".to_string()]);
}

#[test]
fn quotes_are_stripped_from_removal_key() {
    let mut store = Store::new();
    store.append("hello");
    let items = store.remove_first("\"hello\"").unwrap();
    assert_eq!(items, Vec::<String>::new());
}

#[test]
fn strip_quotes_removes_every_quote() {
    assert_eq!(strip_quotes("\"hello\""), "hello");
    assert_eq!(strip_quotes("a\"b\"c"), "abc");
    assert_eq!(strip_quotes("\"\""), "");
    assert_eq!(strip_quotes("plain"), "plain");
}

#[test]
fn read_all_is_a_snapshot() {
    let mut store = seeded();
    let snapshot = store.read_all();
    store.append("later");
    assert_eq!(
        snapshot,
        vec!["This".to_string(), "Is".to_string(), "Working!".to_string()]
    );
}
