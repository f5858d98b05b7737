use node_manager::json::{
    extract_json_str, json_block, json_bool, json_has_key, json_nested_str, json_raw_value,
    json_str,
};

#[test]
fn strings_by_key() {
    let j = r#"{"nodeName" : "alice", "n": 3, "tight":"x"}"#;
    assert_eq!(json_str(j, "nodeName"), "alice");
    assert_eq!(json_str(j, "tight"), "x");
    assert_eq!(json_str(j, "n"), "");
    assert_eq!(json_str(j, "missing"), "");
    assert_eq!(json_str(r#"{"a":"unclosed"#, "a"), "");
    assert_eq!(json_str(r#"{"a":"with \"quote\""}"#, "a"), "with \\");
}

#[test]
fn strings_by_key_and_colon() {
    assert_eq!(extract_json_str(r#"{"token": "abc"}"#, "token"), "abc");
    assert_eq!(extract_json_str(r#"{"token" : "abc"}"#, "token"), "");
    assert_eq!(extract_json_str(r#"{"token":5}"#, "token"), "");
    assert_eq!(extract_json_str("{}", "token"), "");
}

#[test]
fn keys_and_truths() {
    assert!(json_has_key(r#"{"apply":false}"#, "apply"));
    assert!(!json_has_key(r#"{"apply":false}"#, "appl"));
    assert!(json_bool("{}", "apply", true));
    assert!(!json_bool("{}", "apply", false));
    assert!(!json_bool(r#"{"apply":"false"}"#, "apply", true));
    assert!(!json_bool(r#"{"apply":"0"}"#, "apply", true));
    assert!(json_bool(r#"{"apply":"no"}"#, "apply", false));
    assert!(json_bool(r#"{"apply":false}"#, "apply", true));
}

#[test]
fn objects_by_key() {
    let j = r#"{"app": {"name":"a","m":{"x":1}},"b":2}"#;
    assert_eq!(json_block(j, "app"), r#"{"name":"a","m":{"x":1}}"#);
    assert_eq!(json_block(j, "b"), "");
    assert_eq!(json_block(r#"{"app":{"#, "app"), "");
    assert_eq!(json_nested_str(j, "app", "name"), "a");
    assert_eq!(json_nested_str(j, "app", "none"), "");
    assert_eq!(json_nested_str(j, "b", "name"), "");
}

#[test]
fn raw_values_by_key() {
    assert_eq!(json_raw_value(r#"{"m":{"a":[1]}}"#, "m"), r#"{"a":[1]}"#);
    assert_eq!(json_raw_value(r#"{"m": [[1],2]}"#, "m"), "[[1],2]");
    assert_eq!(json_raw_value(r#"{"m":"text"}"#, "m"), "text");
    assert_eq!(json_raw_value(r#"{"m":5}"#, "m"), "");
    assert_eq!(json_raw_value(r#"{"m":{"#, "m"), "");
    assert_eq!(json_raw_value("{}", "m"), "");
}
