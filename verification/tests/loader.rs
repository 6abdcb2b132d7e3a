use slurp::loader::{items_of, parse_document, LoadError};

#[test]
fn array_is_loaded_in_order() {
    let document = parse_document("[{\"a\":1},{\"a\":2},{\"a\":3}]").unwrap();
    let items = items_of(&document).unwrap();
    assert_eq!(items.len(), 3);
    assert_eq!(items[0], serde_json::from_str::<serde_json::Value>("{\"a\":1}").unwrap());
    assert_eq!(items[1], serde_json::from_str::<serde_json::Value>("{\"a\":2}").unwrap());
    assert_eq!(items[2], serde_json::from_str::<serde_json::Value>("{\"a\":3}").unwrap());
}

#[test]
fn items_of_any_kind_are_kept() {
    let document = parse_document(" [1, \"two\", null, [3], {\"k\": true}] ").unwrap();
    let items = items_of(&document).unwrap();
    assert_eq!(items.len(), 5);
    assert_eq!(items[1], serde_json::Value::String(String::from("two")));
    assert_eq!(items[2], serde_json::Value::Null);
}

#[test]
fn empty_array_is_valid_input() {
    let document = parse_document("[]").unwrap();
    let items = items_of(&document).unwrap();
    assert!(items.is_empty());
}

#[test]
fn object_root_is_refused() {
    let document = parse_document("{\"a\": [1, 2]}").unwrap();
    assert_eq!(items_of(&document), Err(LoadError::NotArray));
}

#[test]
fn scalar_root_is_refused() {
    for text in ["1", "\"text\"", "true", "null", "1.5"] {
        let document = parse_document(text).unwrap();
        assert_eq!(items_of(&document), Err(LoadError::NotArray));
    }
}

#[test]
fn malformed_text_is_refused() {
    for text in ["", "[1, 2", "[1,]", "{a:1}", "[1] [2]", "nope"] {
        match parse_document(text) {
            Err(LoadError::Syntax(message)) => assert!(!message.is_empty()),
            other => panic!("{:?} was read as {:?}", text, other),
        }
    }
}
