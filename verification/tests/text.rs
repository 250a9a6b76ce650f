use lpm::order::sort_texts;
use lpm::text::{join_strings, lines_of, replace_str, split_str, trim_str, words_of};

#[test]
fn words_and_lines() {
    assert_eq!(words_of("  lua   src/main.lua\t-x \n"), vec!["lua", "src/main.lua", "-x"]);
    assert!(words_of("   ").is_empty());
    assert_eq!(lines_of("a\r\nb\n\nc"), vec!["a", "b", "", "c"]);
    assert_eq!(lines_of("a\n"), vec!["a"]);
}

#[test]
fn string_helpers() {
    assert_eq!(trim_str("  x y \t"), "x y");
    assert_eq!(replace_str("a-b-c", "-", "_"), "a_b_c");
    assert_eq!(split_str("a || b||c", "||"), vec!["a ", " b", "c"]);
    assert_eq!(join_strings(&vec!["a".to_string(), "b".to_string()], ", "), "a, b");
}

#[test]
fn sorting_texts() {
    let v = vec!["b".to_string(), "a".to_string(), "ab".to_string(), "B".to_string(), "a".to_string()];
    assert_eq!(sort_texts(v), vec!["B", "a", "a", "ab", "b"]);
}
