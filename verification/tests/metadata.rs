use rusite_front_ending::metadata::{
    decode_front_matter, front_matter_from_entries, YamlEntry, YamlValue,
};
use rusite_front_ending::models::markdown::FrontMatter;

fn text(s: &str) -> YamlValue {
    YamlValue::Text(s.to_string())
}

fn entry(key: &str, value: YamlValue) -> YamlEntry {
    YamlEntry { key: Some(key.to_string()), value }
}

fn list(items: &[Option<&str>]) -> YamlValue {
    YamlValue::List(items.iter().map(|item| item.map(|s| s.to_string())).collect())
}

fn plain(title: &str, date: &str) -> FrontMatter {
    FrontMatter {
        title: title.to_string(),
        date: date.to_string(),
        author: None,
        tags: None,
        math_support: None,
    }
}

#[test]
fn title_and_date_are_enough() {
    assert_eq!(decode_front_matter("title: T\ndate: D"), Some(plain("T", "D")));
}

#[test]
fn all_fields_are_read() {
    let block = "title: My Post\ndate: 2024-01-02\nauthor: Ann\ntags:\n  - rust\n  - web\nmath_support: true\n";
    let expected = FrontMatter {
        title: "My Post".to_string(),
        date: "2024-01-02".to_string(),
        author: Some("Ann".to_string()),
        tags: Some(vec!["rust".to_string(), "web".to_string()]),
        math_support: Some(true),
    };
    assert_eq!(decode_front_matter(block), Some(expected));
}

#[test]
fn tags_keep_their_order() {
    let front_matter = decode_front_matter("title: T\ndate: D\ntags: [z, a, m, a]").unwrap();
    assert_eq!(
        front_matter.tags,
        Some(vec!["z".to_string(), "a".to_string(), "m".to_string(), "a".to_string()])
    );
}

#[test]
fn empty_tag_list_is_a_list() {
    let front_matter = decode_front_matter("title: T\ndate: D\ntags: []").unwrap();
    assert_eq!(front_matter.tags, Some(Vec::new()));
}

#[test]
fn unknown_keys_are_ignored() {
    let block = "layout: post\ntitle: T\ndraft: true\ndate: D\nweight: 3\nextra:\n  nested: [1, 2]\n";
    assert_eq!(decode_front_matter(block), Some(plain("T", "D")));
}

#[test]
fn missing_required_field_fails() {
    assert_eq!(decode_front_matter("title: T"), None);
    assert_eq!(decode_front_matter("date: D"), None);
    assert_eq!(decode_front_matter("author: A\ntags: [x]"), None);
}

#[test]
fn required_field_of_wrong_shape_fails() {
    assert_eq!(decode_front_matter("title: 1\ndate: D"), None);
    assert_eq!(decode_front_matter("title: T\ndate: true"), None);
    assert_eq!(decode_front_matter("title: [T]\ndate: D"), None);
    assert_eq!(decode_front_matter("title:\ndate: D"), None);
    assert_eq!(decode_front_matter("title: {a: b}\ndate: D"), None);
}

#[test]
fn quoted_scalars_are_texts() {
    assert_eq!(decode_front_matter("title: '1'\ndate: \"true\""), Some(plain("1", "true")));
}

#[test]
fn optional_field_of_wrong_shape_fails() {
    assert_eq!(decode_front_matter("title: T\ndate: D\ntags: one"), None);
    assert_eq!(decode_front_matter("title: T\ndate: D\ntags: [1, 2]"), None);
    assert_eq!(decode_front_matter("title: T\ndate: D\ntags: [a, [b]]"), None);
    assert_eq!(decode_front_matter("title: T\ndate: D\nauthor: 7"), None);
    assert_eq!(decode_front_matter("title: T\ndate: D\nauthor: [A]"), None);
    assert_eq!(decode_front_matter("title: T\ndate: D\nmath_support: 1"), None);
    assert_eq!(decode_front_matter("title: T\ndate: D\nmath_support: \"true\""), None);
}

#[test]
fn null_optional_fields_are_absent() {
    let block = "title: T\ndate: D\nauthor: ~\ntags:\nmath_support: null";
    assert_eq!(decode_front_matter(block), Some(plain("T", "D")));
}

#[test]
fn math_support_may_be_false() {
    let front_matter = decode_front_matter("title: T\ndate: D\nmath_support: false").unwrap();
    assert_eq!(front_matter.math_support, Some(false));
}

#[test]
fn text_that_is_not_yaml_fails() {
    assert_eq!(decode_front_matter("title: [unclosed"), None);
    assert_eq!(decode_front_matter("title: T\n  date: D\n badindent: x"), None);
    assert_eq!(decode_front_matter("\"unterminated"), None);
}

#[test]
fn yaml_that_is_no_mapping_fails() {
    assert_eq!(decode_front_matter(""), None);
    assert_eq!(decode_front_matter("just text"), None);
    assert_eq!(decode_front_matter("- title: T\n- date: D"), None);
    assert_eq!(decode_front_matter("42"), None);
}

#[test]
fn repeated_key_fails() {
    assert_eq!(decode_front_matter("title: A\ntitle: B\ndate: D"), None);
}

#[test]
fn tagged_values_do_not_count_as_texts() {
    assert_eq!(decode_front_matter("title: !shout T\ndate: D"), None);
    assert_eq!(decode_front_matter("title: T\ndate: D\nextra: !shout x"), Some(plain("T", "D")));
}

#[test]
fn entries_with_title_and_date_hold_front_matter() {
    let entries = vec![entry("date", text("D")), entry("title", text("T"))];
    assert_eq!(front_matter_from_entries(&entries), Some(plain("T", "D")));
}

#[test]
fn entries_with_every_field() {
    let entries = vec![
        entry("title", text("T")),
        entry("date", text("D")),
        entry("author", text("A")),
        entry("tags", list(&[Some("x"), Some("y")])),
        entry("math_support", YamlValue::Bool(true)),
    ];
    let expected = FrontMatter {
        title: "T".to_string(),
        date: "D".to_string(),
        author: Some("A".to_string()),
        tags: Some(vec!["x".to_string(), "y".to_string()]),
        math_support: Some(true),
    };
    assert_eq!(front_matter_from_entries(&entries), Some(expected));
}

#[test]
fn first_of_two_entries_with_one_key_counts() {
    let entries = vec![
        entry("title", text("first")),
        entry("title", YamlValue::Other),
        entry("date", text("D")),
    ];
    assert_eq!(front_matter_from_entries(&entries), Some(plain("first", "D")));
    let entries = vec![
        entry("title", YamlValue::Other),
        entry("title", text("second")),
        entry("date", text("D")),
    ];
    assert_eq!(front_matter_from_entries(&entries), None);
}

#[test]
fn keys_that_are_no_texts_are_passed_over() {
    let entries = vec![
        YamlEntry { key: None, value: text("n") },
        entry("title", text("T")),
        YamlEntry { key: None, value: YamlValue::Other },
        entry("date", text("D")),
    ];
    assert_eq!(front_matter_from_entries(&entries), Some(plain("T", "D")));
}

#[test]
fn no_entries_hold_no_front_matter() {
    assert_eq!(front_matter_from_entries(&Vec::new()), None);
}

#[test]
fn null_and_other_values_among_the_entries() {
    let entries = vec![
        entry("title", text("T")),
        entry("date", text("D")),
        entry("author", YamlValue::Null),
        entry("tags", YamlValue::Null),
        entry("math_support", YamlValue::Null),
    ];
    assert_eq!(front_matter_from_entries(&entries), Some(plain("T", "D")));
    let entries = vec![entry("title", text("T")), entry("date", text("D")), entry("author", YamlValue::Other)];
    assert_eq!(front_matter_from_entries(&entries), None);
    let entries = vec![
        entry("title", text("T")),
        entry("date", text("D")),
        entry("tags", list(&[Some("a"), None])),
    ];
    assert_eq!(front_matter_from_entries(&entries), None);
    let entries = vec![entry("title", text("T")), entry("date", text("D")), entry("tags", list(&[]))];
    let front_matter = front_matter_from_entries(&entries).unwrap();
    assert_eq!(front_matter.tags, Some(Vec::new()));
    let entries = vec![entry("title", text("T")), entry("date", YamlValue::Null)];
    assert_eq!(front_matter_from_entries(&entries), None);
    let entries = vec![entry("title", text("T")), entry("date", text("D")), entry("math_support", text("true"))];
    assert_eq!(front_matter_from_entries(&entries), None);
}
