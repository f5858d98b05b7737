use node_manager::split::{
    cut, lines_of, pieces, stripped, stripped_start, trimmed, trimmed_end, trimmed_start, twice,
    words_of,
};
use node_manager::text::{
    begins_with, byte_count, chars_of, contains_text, index_of, index_of_any, is_blank,
    last_index_of_any, same, split_at_byte, string_of,
};

fn text(s: &[char]) -> String {
    string_of(s)
}

fn texts(v: Vec<&[char]>) -> Vec<String> {
    v.into_iter().map(string_of).collect()
}

#[test]
fn characters_there_and_back() {
    assert_eq!(chars_of("aé🜲"), vec!['a', 'é', '🜲']);
    assert_eq!(string_of(&['a', 'é', '🜲']), "aé🜲");
    assert_eq!(byte_count("aé🜲"), 7);
    assert!(is_blank(""));
    assert!(!is_blank(" "));
    assert!(same("é", "é"));
    assert!(!same("e", "é"));
}

#[test]
fn bytes_come_apart_only_between_characters() {
    assert_eq!(split_at_byte("aéb", 1), Some(("a".to_string(), "éb".to_string())));
    assert_eq!(split_at_byte("aéb", 2), None);
    assert_eq!(split_at_byte("aéb", 3), Some(("aé".to_string(), "b".to_string())));
    assert_eq!(split_at_byte("aéb", 4), Some(("aéb".to_string(), String::new())));
    assert_eq!(split_at_byte("aéb", 5), None);
}

#[test]
fn searching() {
    let s = chars_of("abcabc");
    assert_eq!(index_of(&s, &chars_of("ca")), Some(2));
    assert_eq!(index_of(&s, &chars_of("cb")), None);
    assert_eq!(index_of(&s, &chars_of("")), Some(0));
    assert!(contains_text(&s, &chars_of("bca")));
    assert!(!contains_text(&s, &chars_of("abcabca")));
    assert_eq!(index_of_any(&s, "cb"), Some(1));
    assert_eq!(index_of_any(&s, "x"), None);
    assert_eq!(last_index_of_any(&s, "ab"), Some(4));
    assert!(begins_with(&s, &chars_of("abc")));
    assert!(!begins_with(&s, &chars_of("b")));
}

#[test]
fn trimming() {
    let s = chars_of(" \t\u{a0}a b\r\n");
    assert_eq!(text(trimmed(&s)), "a b");
    assert_eq!(text(trimmed_start(&s)), "a b\r\n");
    assert_eq!(text(trimmed_end(&s)), " \t\u{a0}a b");
    assert_eq!(text(trimmed(&chars_of(" \n"))), "");
    assert_eq!(text(stripped(&chars_of("((a::b)!)"), ")(!")), "a::b");
    assert_eq!(text(stripped_start(&chars_of("vv6.2v"), "v")), "6.2v");
}

#[test]
fn splitting() {
    assert_eq!(texts(pieces(&chars_of("a,,b,"), ",")), vec!["a", "", "b", ""]);
    assert_eq!(texts(pieces(&chars_of(""), ",")), vec![""]);
    assert_eq!(texts(lines_of(&chars_of("a\r\nb\n\nc\r"))), vec!["a", "b", "", "c\r"]);
    assert!(lines_of(&chars_of("")).is_empty());
    assert_eq!(texts(words_of(&chars_of("  a \t b\n"))), vec!["a", "b"]);
    let s = chars_of("k=v=w");
    let (k, v) = cut(&s, "=").unwrap();
    assert_eq!((text(k), text(v)), ("k".to_string(), "v=w".to_string()));
    assert!(cut(&chars_of("kv"), "=").is_none());
    assert!(twice(&chars_of("a::b::c"), &chars_of("::")));
    assert!(!twice(&chars_of("a:::b"), &chars_of("::")));
}
