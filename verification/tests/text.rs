use rusite_front_ending::text::{chars_of, contains, push_decimal, same_text, string_of, trim};

fn chars(s: &str) -> Vec<char> {
    s.chars().collect()
}

fn decimal(n: u64) -> String {
    let mut out = String::new();
    push_decimal(&mut out, n);
    out
}

#[test]
fn characters_come_in_order() {
    assert_eq!(chars_of("abc"), vec!['a', 'b', 'c']);
    assert_eq!(chars_of("é✓"), vec!['é', '✓']);
    assert!(chars_of("").is_empty());
}

#[test]
fn part_of_the_characters_becomes_a_string() {
    let all = chars("hello ✓ world");
    assert_eq!(string_of(&all, 0, 5), "hello");
    assert_eq!(string_of(&all, 6, 7), "✓");
    assert_eq!(string_of(&all, 8, 13), "world");
    assert_eq!(string_of(&all, 3, 3), "");
    assert_eq!(string_of(&all, 0, 13), "hello ✓ world");
}

#[test]
fn texts_are_compared_by_characters() {
    assert!(same_text("abc", "abc"));
    assert!(same_text("", ""));
    assert!(!same_text("abc", "abd"));
    assert!(!same_text("abc", "ab"));
    assert!(!same_text("", "a"));
    assert!(!same_text("Abc", "abc"));
}

#[test]
fn numbers_are_written_in_decimal() {
    assert_eq!(decimal(0), "0");
    assert_eq!(decimal(7), "7");
    assert_eq!(decimal(9), "9");
    assert_eq!(decimal(10), "10");
    assert_eq!(decimal(99), "99");
    assert_eq!(decimal(100), "100");
    assert_eq!(decimal(1234567890), "1234567890");
    assert_eq!(decimal(u64::MAX), "18446744073709551615");
}

#[test]
fn decimal_is_appended_to_what_is_there() {
    let mut out = "n=".to_string();
    push_decimal(&mut out, 42);
    assert_eq!(out, "n=42");
}

#[test]
fn whitespace_is_trimmed_at_both_ends() {
    assert_eq!(trim("  a b \n"), "a b");
    assert_eq!(trim("a"), "a");
    assert_eq!(trim("\t\r\n x"), "x");
    assert_eq!(trim("x \u{3000}"), "x");
    assert_eq!(trim(""), "");
    assert_eq!(trim("   "), "");
    assert_eq!(trim(" a  b  c "), "a  b  c");
}

#[test]
fn a_text_is_found_inside_another() {
    assert!(contains(&chars("hello world"), &chars("lo w")));
    assert!(contains(&chars("hello"), &chars("hello")));
    assert!(contains(&chars("hello"), &chars("h")));
    assert!(contains(&chars("hello"), &chars("o")));
    assert!(contains(&chars("aab"), &chars("ab")));
    assert!(!contains(&chars("hello"), &chars("hellox")));
    assert!(!contains(&chars("hello"), &chars("lol")));
    assert!(!contains(&chars(""), &chars("a")));
}

#[test]
fn the_empty_text_is_found_everywhere() {
    assert!(contains(&chars("abc"), &chars("")));
    assert!(contains(&chars(""), &chars("")));
}
