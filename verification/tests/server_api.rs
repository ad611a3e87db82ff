use todo_store::server::Method;
use todo_store::server::handle;
use todo_store::store::Store;

fn seeded() -> Store {
    Store::from_items(vec![
        "This".to_string(),
        "Is".to_string(),
        "Working!".to_string(),
    ])
}

#[test]
fn get_reads_without_changing_the_list() {
    let mut store = seeded();
    let resp = handle(&mut store, Method::Get, "");
    assert_eq!(resp.status, 200);
    assert_eq!(resp.body, "[\"This\",\"Is\",\"Working!\"]");
    assert_eq!(
        store.read_all(),
        vec!["This".to_string(), "Is".to_string(), "Working!".to_string()]
    );
}

#[test]
fn post_appends_the_body() {
    let mut store = seeded();
    let resp = handle(&mut store, Method::Post, "Newest");
    assert_eq!(resp.status, 200);
    assert_eq!(resp.body, "[\"This\",\"Is\",\"Working!\",\"Newest\"]");
}

#[test]
fn post_strips_quotes_from_a_json_string_body() {
    let mut store = Store::new();
    let resp = handle(&mut store, Method::Post, "\"hello\"");
    assert_eq!(resp.status, 200);
    assert_eq!(resp.body, "[\"hello\"]");
}

#[test]
fn delete_removes_the_first_match() {
    let mut store = seeded();
    let resp = handle(&mut store, Method::Delete, "Is");
    assert_eq!(resp.status, 200);
    assert_eq!(resp.body, "[\"This\",\"Working!\"]");
}

#[test]
fn delete_of_an_absent_value_answers_not_found() {
    let mut store = seeded();
    let resp = handle(&mut store, Method::Delete, "absent");
    assert_eq!(resp.status, 404);
    assert_eq!(resp.body, "value not found");
    assert_eq!(
        store.read_all(),
        vec!["This".to_string(), "Is".to_string(), "Working!".to_string()]
    );
}

#[test]
fn patch_clears_the_list() {
    let mut store = seeded();
    let resp = handle(&mut store, Method::Patch, "");
    assert_eq!(resp.status, 200);
    assert_eq!(resp.body, "[]");
    assert_eq!(store.read_all(), Vec::<String>::new());
}

#[test]
fn full_session_over_the_api() {
    let mut store = seeded();
    assert_eq!(handle(&mut store, Method::Delete, "Is").body, "[\"This\",\"Working!\"]");
    assert_eq!(
        handle(&mut store, Method::Post, "Newest").body,
        "[\"This\",\"Working!\",\"Newest\"]"
    );
    assert_eq!(handle(&mut store, Method::Patch, "").body, "[]");
    assert_eq!(handle(&mut store, Method::Get, "").body, "[]");
}
