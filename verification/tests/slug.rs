use rusite_front_ending::slug::{slug_from_flags, slug_from_lowercase, slugify, SlugCounter};

#[test]
fn spaces_become_hyphens() {
    assert_eq!(slugify("Hello World"), "hello-world");
    assert_eq!(slugify("a  b"), "a--b");
    assert_eq!(slugify("  "), "--");
}

#[test]
fn letters_are_lowercased() {
    assert_eq!(slugify("ABC"), "abc");
    assert_eq!(slugify("MiXeD Case"), "mixed-case");
    assert_eq!(slugify("ÄÖÜ Straße"), "äöü-straße");
}

#[test]
fn hyphens_and_alphanumerics_are_kept() {
    assert_eq!(slugify("a-b"), "a-b");
    assert_eq!(slugify("v1-2-3"), "v1-2-3");
    assert_eq!(slugify("--"), "--");
    assert_eq!(slugify("Part 2"), "part-2");
    assert_eq!(slugify("中文 标题"), "中文-标题");
}

#[test]
fn everything_else_is_dropped() {
    assert_eq!(slugify("Hello, World!"), "hello-world");
    assert_eq!(slugify("snake_case"), "snakecase");
    assert_eq!(slugify("tab\there"), "tabhere");
    assert_eq!(slugify("a.b/c:d"), "abcd");
    assert_eq!(slugify("!!!"), "");
    assert_eq!(slugify(""), "");
    assert_eq!(slugify("what? (really)"), "what-really");
}

#[test]
fn slug_of_lowercase_text_does_not_lowercase() {
    assert_eq!(slug_from_lowercase("hello world"), "hello-world");
    assert_eq!(slug_from_lowercase("Hello World"), "Hello-World");
    assert_eq!(slug_from_lowercase("a!b c-d"), "ab-c-d");
}

#[test]
fn first_use_of_a_slug_is_the_slug() {
    let mut counter = SlugCounter::new();
    assert_eq!(counter.assign("intro".to_string()), "intro");
    assert_eq!(counter.assign("other".to_string()), "other");
}

#[test]
fn later_uses_are_numbered_from_one() {
    let mut counter = SlugCounter::new();
    let mut ids = Vec::new();
    for _ in 0..12 {
        ids.push(counter.assign("x".to_string()));
    }
    assert_eq!(
        ids,
        vec!["x", "x-1", "x-2", "x-3", "x-4", "x-5", "x-6", "x-7", "x-8", "x-9", "x-10", "x-11"]
    );
}

#[test]
fn slugs_are_counted_apart() {
    let mut counter = SlugCounter::new();
    assert_eq!(counter.assign("a".to_string()), "a");
    assert_eq!(counter.assign("b".to_string()), "b");
    assert_eq!(counter.assign("a".to_string()), "a-1");
    assert_eq!(counter.assign("b".to_string()), "b-1");
    assert_eq!(counter.assign("a".to_string()), "a-2");
    assert_eq!(counter.seen("a"), 3);
    assert_eq!(counter.seen("b"), 2);
    assert_eq!(counter.seen("c"), 0);
}

#[test]
fn empty_slug_is_counted_like_any_other() {
    let mut counter = SlugCounter::new();
    assert_eq!(counter.assign(String::new()), "");
    assert_eq!(counter.assign(String::new()), "-1");
    assert_eq!(counter.assign(String::new()), "-2");
    assert_eq!(counter.seen(""), 3);
}

#[test]
fn a_numbered_identifier_can_meet_a_slug_of_that_form() {
    let mut counter = SlugCounter::new();
    assert_eq!(counter.assign("a".to_string()), "a");
    assert_eq!(counter.assign("a".to_string()), "a-1");
    assert_eq!(counter.assign("a-1".to_string()), "a-1");
}

#[test]
fn new_counter_has_seen_nothing() {
    let counter = SlugCounter::new();
    assert_eq!(counter.seen("x"), 0);
    assert_eq!(counter.seen(""), 0);
}

#[test]
fn flags_decide_what_a_slug_keeps() {
    let lower: Vec<char> = "a b!-c".chars().collect();
    assert_eq!(slug_from_flags(&lower, &vec![true, false, true, false, false, true]), "a-b-c");
    assert_eq!(slug_from_flags(&lower, &vec![false; 6]), "--");
    assert_eq!(slug_from_flags(&lower, &vec![true; 6]), "a-b!-c");
    let marks: Vec<char> = "!!!".chars().collect();
    assert_eq!(slug_from_flags(&marks, &vec![false, false, false]), "");
    assert_eq!(slug_from_flags(&Vec::new(), &Vec::new()), "");
}
