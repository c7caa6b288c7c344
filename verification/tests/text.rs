use ck_cli::text::{
    char_is_space, chars_of, confirms, copy_strings, decimal, is_blank, join, preview, short_name,
    text_eq, trim,
};

#[test]
fn decimal_renders_numbers() {
    assert_eq!(decimal(0), "0");
    assert_eq!(decimal(7), "7");
    assert_eq!(decimal(10), "10");
    assert_eq!(decimal(1234567890), "1234567890");
    assert_eq!(decimal(u128::MAX), u128::MAX.to_string());
}

#[test]
fn trim_agrees_with_std() {
    for s in ["", " ", "  a b \t\n", "x", "\u{a0}y\u{3000}", "\u{200b}z ", " é ", "\r\n"] {
        assert_eq!(trim(s), s.trim());
        assert_eq!(is_blank(s), s.trim().is_empty());
    }
    for c in ['\u{0}', ' ', '\t', '\n', '\u{b}', '\u{c}', '\r', '\u{85}', '\u{a0}', '\u{1680}', '\u{2000}', '\u{200a}', '\u{200b}', '\u{2028}', '\u{2029}', '\u{202f}', '\u{205f}', '\u{3000}', 'a', '\u{1f}', '\u{e}'] {
        assert_eq!(char_is_space(c), c.is_whitespace());
    }
}

#[test]
fn only_a_lone_y_confirms() {
    for yes in ["y", "Y", " y\n", "\tY  "] {
        assert!(confirms(yes));
    }
    for no in ["", "n", "yes", "yy", " ", "y y", "N"] {
        assert!(!confirms(no));
    }
}

#[test]
fn short_name_is_the_last_component() {
    assert_eq!(short_name("src/engine/rank.rs"), "rank.rs");
    assert_eq!(short_name("rank.rs"), "rank.rs");
    assert_eq!(short_name("dir/"), "");
    assert_eq!(short_name(""), "");
    assert_eq!(short_name("/é/ü.txt"), "ü.txt");
}

#[test]
fn preview_is_the_first_line_with_text() {
    assert_eq!(preview("\n\n   fn main() {  \n  body\n"), "fn main() {");
    assert_eq!(preview(""), "");
    assert_eq!(preview(" \n\t\n"), "");
    assert_eq!(preview("abc"), "abc");
    assert_eq!(preview("abc\r\ndef"), "abc");
    let long = "x".repeat(100);
    assert_eq!(preview(&long), "x".repeat(60));
    let indented = format!("{}{}", " ".repeat(58), "abcdef");
    assert_eq!(preview(&indented), "ab");
    let far = format!("{}{}", " ".repeat(60), "abcdef");
    assert_eq!(preview(&far), "");
}

#[test]
fn join_and_copies() {
    let items = vec!["a".to_string(), "b".to_string(), "c".to_string()];
    assert_eq!(join(&items, ", "), "a, b, c");
    assert_eq!(join(&vec![], ", "), "");
    assert_eq!(join(&vec!["x".to_string()], ", "), "x");
    assert_eq!(copy_strings(&items), items);
    assert_eq!(chars_of("héllo"), vec!['h', 'é', 'l', 'l', 'o']);
    assert!(text_eq("abc", "abc"));
    assert!(!text_eq("abc", "abd"));
}
