use todo_store::codec::to_json;

#[test]
fn empty_list_renders_as_empty_array() {
    assert_eq!(to_json(&Vec::new()), "[]");
}

#[test]
fn items_render_in_order() {
    let items = vec!["This".to_string(), "Is".to_string(), "Working!".to_string()];
    assert_eq!(to_json(&items), "[\"This\",\"Is\",\"Working!\"]");
}

#[test]
fn single_item_has_no_comma() {
    assert_eq!(to_json(&vec!["one".to_string()]), "[\"one\"]");
}

#[test]
fn quotes_and_backslashes_are_escaped() {
    let items = vec!["a\"b".to_string(), "c\\d".to_string()];
    assert_eq!(to_json(&items), "[\"a\\\"b\",\"c\\\\d\"]");
}

#[test]
fn named_control_characters_use_short_escapes() {
    let items = vec!["a\u{8}\t\n\u{c}\r".to_string()];
    assert_eq!(to_json(&items), "[\"a\\b\\t\\n\\f\\r\"]");
}

#[test]
fn other_control_characters_use_unicode_escapes() {
    let items = vec!["\u{1}\u{1f}".to_string()];
    assert_eq!(to_json(&items), "[\"\\u0001\\u001f\"]");
}

#[test]
fn non_ascii_text_passes_through() {
    let items = vec!["héllo ✓".to_string()];
    assert_eq!(to_json(&items), "[\"héllo ✓\"]");
}

#[test]
fn rendering_matches_serde_json() {
    let samples: Vec<Vec<String>> = vec![
        vec![],
        vec!["".to_string()],
        vec!["plain".to_string(), "with space".to_string()],
        vec!["a\"b".to_string(), "c\\d".to_string()],
        vec!["a\u{8}\t\n\u{c}\r\u{1}\u{1f}".to_string()],
        vec!["héllo ✓".to_string(), "壊れていない".to_string()],
    ];
    for items in samples {
        assert_eq!(to_json(&items), serde_json::to_string(&items).unwrap());
    }
}
