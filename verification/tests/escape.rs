use node_manager::escape::{escape, html_escape, json_escape, shell_single_quote, Escape};

#[test]
fn json_text() {
    assert_eq!(json_escape(r#"a"b\c"#), r#"a\"b\\c"#);
    assert_eq!(json_escape("é\n"), "é\n");
}

#[test]
fn html_text() {
    assert_eq!(html_escape("<a href=\"x\">&'"), "&lt;a href=&quot;x&quot;&gt;&amp;'");
    let all = html_escape("<>\"&<>\"&");
    assert!(!all.contains('<') && !all.contains('>') && !all.contains('"'));
}

#[test]
fn shell_words() {
    assert_eq!(shell_single_quote("ls"), "'ls'");
    assert_eq!(shell_single_quote("it's; rm"), r"'it'\''s; rm'");
    assert_eq!(shell_single_quote(""), "''");
}

#[test]
fn script_text() {
    assert_eq!(escape(r"a'b\c", Escape::Script), r"a\'b\\c");
}
