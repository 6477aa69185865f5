use rusite_front_ending::models::markdown::Heading;
use rusite_front_ending::utils::{
    parse_front_matter, parse_markdown, parse_markdown_lenient, render_markdown_with_toc,
};

fn heading(id: &str, text: &str, level: u32) -> Heading {
    Heading { id: id.to_string(), text: text.to_string(), level }
}

#[test]
fn repeated_headings_get_numbered_ids() {
    let (html, toc) = render_markdown_with_toc("# A\n\n# A\n\n## B");
    assert_eq!(toc, vec![heading("a", "A", 1), heading("a-1", "A", 1), heading("b", "B", 2)]);
    assert_eq!(html, "<h1>A<h1 id=\"a\">\n<h1>A<h1 id=\"a-1\">\n<h2>B<h2 id=\"b\">");
}

#[test]
fn two_intros_are_told_apart_in_toc_and_html() {
    let (html, toc) = render_markdown_with_toc("# Intro\n\n# Intro");
    assert_eq!(toc.len(), 2);
    assert_eq!(toc[0].id, "intro");
    assert_eq!(toc[1].id, "intro-1");
    let first = html.find("<h1 id=\"intro\">").unwrap();
    let second = html.find("<h1 id=\"intro-1\">").unwrap();
    assert!(first < second);
}

#[test]
fn third_intro_gets_suffix_two() {
    let (html, toc) = render_markdown_with_toc("# Intro\n\n## Intro\n\n### Intro");
    assert_eq!(
        toc,
        vec![heading("intro", "Intro", 1), heading("intro-1", "Intro", 2), heading("intro-2", "Intro", 3)]
    );
    assert_eq!(
        html,
        "<h1>Intro<h1 id=\"intro\">\n<h2>Intro<h2 id=\"intro-1\">\n<h3>Intro<h3 id=\"intro-2\">"
    );
}

#[test]
fn rendering_twice_gives_the_same() {
    let text = "# One\n\nsome *text*\n\n## Two\n\n- a\n- b\n\n## Two\n";
    let first = render_markdown_with_toc(text);
    let second = render_markdown_with_toc(text);
    assert_eq!(first.0, second.0);
    assert_eq!(first.1, second.1);
}

#[test]
fn empty_input_renders_to_nothing() {
    let (html, toc) = render_markdown_with_toc("");
    assert_eq!(html, "");
    assert!(toc.is_empty());
}

#[test]
fn headings_of_punctuation_have_empty_slug() {
    let (html, toc) = render_markdown_with_toc("# !!!\n\n# !!!\n\n# !!!");
    assert_eq!(toc, vec![heading("", "!!!", 1), heading("-1", "!!!", 1), heading("-2", "!!!", 1)]);
    assert_eq!(html, "<h1>!!!<h1 id=\"\">\n<h1>!!!<h1 id=\"-1\">\n<h1>!!!<h1 id=\"-2\">");
}

#[test]
fn plain_text_is_a_paragraph() {
    let (html, toc) = render_markdown_with_toc("a < b & c");
    assert_eq!(html, "<p>a &lt; b &amp; c</p>\n");
    assert!(toc.is_empty());
}

#[test]
fn text_after_a_heading_joins_its_text() {
    let (html, toc) = render_markdown_with_toc("# A\n\nhello");
    assert_eq!(toc, vec![heading("a", "Ahello", 1)]);
    assert_eq!(html, "<h1>A<h1 id=\"a\">\n<p>hello</p>\n");
}

#[test]
fn text_before_the_first_heading_is_not_collected() {
    let (html, toc) = render_markdown_with_toc("hello\n\n# A");
    assert_eq!(toc, vec![heading("a", "A", 1)]);
    assert_eq!(html, "<p>hello</p>\n<h1>A<h1 id=\"a\">");
}

#[test]
fn inline_code_is_not_heading_text() {
    let (html, toc) = render_markdown_with_toc("# A `b` c");
    assert_eq!(toc, vec![heading("a--c", "A  c", 1)]);
    assert_eq!(html, "<h1>A <code>b</code> c<h1 id=\"a--c\">");
}

#[test]
fn emphasis_inside_a_heading_is_collected() {
    let (_, toc) = render_markdown_with_toc("## Hello *big* World");
    assert_eq!(toc, vec![heading("hello-big-world", "Hello big World", 2)]);
}

#[test]
fn all_six_levels_are_read() {
    let (html, toc) = render_markdown_with_toc("# a\n## b\n### c\n#### d\n##### e\n###### f");
    let levels: Vec<u32> = toc.iter().map(|h| h.level).collect();
    assert_eq!(levels, vec![1, 2, 3, 4, 5, 6]);
    assert!(html.ends_with("<h6>f<h6 id=\"f\">"));
}

#[test]
fn underlined_headings_are_headings() {
    let (_, toc) = render_markdown_with_toc("Title\n=====\n\nSub\n---");
    assert_eq!(toc, vec![heading("title", "Title", 1), heading("sub", "Sub", 2)]);
}

#[test]
fn strikethrough_is_switched_on() {
    let (html, _) = render_markdown_with_toc("~~gone~~");
    assert_eq!(html, "<p><del>gone</del></p>\n");
}

#[test]
fn tables_are_switched_on() {
    let (html, _) = render_markdown_with_toc("| a | b |\n|---|---|\n| 1 | 2 |\n");
    assert!(html.starts_with("<table>"));
    assert!(html.contains("<th>a</th>"));
    assert!(html.contains("<td>2</td>"));
}

#[test]
fn footnotes_are_switched_on() {
    let (html, _) = render_markdown_with_toc("see[^n]\n\n[^n]: the note\n");
    assert!(html.contains("footnote-reference"));
    assert!(html.contains("footnote-definition"));
}

#[test]
fn unclosed_constructs_do_not_fail() {
    let (html, toc) = render_markdown_with_toc("**bold [link](\n\n> quote\n\n```\ncode");
    assert!(!html.is_empty());
    assert!(toc.is_empty());
}

#[test]
fn strict_parse_reads_front_matter() {
    let doc = parse_markdown("---\ntitle: T\ndate: D\n---\nBODY").unwrap();
    let front_matter = doc.front_matter.unwrap();
    assert_eq!(front_matter.title, "T");
    assert_eq!(front_matter.date, "D");
    assert_eq!(front_matter.author, None);
    assert_eq!(front_matter.tags, None);
    assert_eq!(front_matter.math_support, None);
    assert_eq!(doc.html_content, "<p>BODY</p>\n");
    assert!(doc.toc.is_empty());
}

#[test]
fn strict_parse_fails_on_undecodable_front_matter() {
    assert!(parse_markdown("---\ntitle: T\n---\n# H").is_none());
    assert!(parse_markdown("---\ntitle: [\n---\n# H").is_none());
}

#[test]
fn strict_parse_takes_a_document_without_front_matter() {
    let doc = parse_markdown("# H\n\ntext").unwrap();
    assert!(doc.front_matter.is_none());
    assert_eq!(doc.html_content, "<h1>H<h1 id=\"h\">\n<p>text</p>\n");
    assert_eq!(doc.toc, vec![heading("h", "Htext", 1)]);
}

#[test]
fn lenient_parse_renders_the_body_when_decoding_fails() {
    let doc = parse_markdown_lenient("---\ntitle: T\n---\n# H");
    assert!(doc.front_matter.is_none());
    assert_eq!(doc.html_content, "<h1>H<h1 id=\"h\">");
    assert_eq!(doc.toc, vec![heading("h", "H", 1)]);
}

#[test]
fn lenient_parse_agrees_with_strict_parse_where_that_succeeds() {
    let text = "---\ntitle: T\ndate: D\ntags: [x, y]\n---\n# One\n\n# One";
    let strict = parse_markdown(text).unwrap();
    let lenient = parse_markdown_lenient(text);
    assert_eq!(strict, lenient);
    assert_eq!(lenient.front_matter.unwrap().tags, Some(vec!["x".to_string(), "y".to_string()]));
    assert_eq!(lenient.toc, vec![heading("one", "One", 1), heading("one-1", "One", 1)]);
}

#[test]
fn lenient_parse_of_the_empty_document() {
    let doc = parse_markdown_lenient("");
    assert!(doc.front_matter.is_none());
    assert_eq!(doc.html_content, "");
    assert!(doc.toc.is_empty());
}

#[test]
fn without_a_leading_delimiter_the_body_is_the_document() {
    for raw in ["", "plain", "# H\n---\ntitle: T\n---\n", " ---\ntitle: T\ndate: D\n---\nB", "--\na\n---\n", "----\ntitle: T\ndate: D\n---\nB"] {
        let (front_matter, body) = parse_front_matter(raw);
        assert!(front_matter.is_none());
        assert_eq!(body, raw);
    }
}

#[test]
fn front_matter_and_body_are_taken_apart() {
    let (front_matter, body) = parse_front_matter("---\ntitle: T\ndate: D\n---\n# H\n---\nrest");
    let front_matter = front_matter.unwrap();
    assert_eq!(front_matter.title, "T");
    assert_eq!(front_matter.date, "D");
    assert_eq!(body, "# H\n---\nrest");
}

#[test]
fn undecodable_front_matter_still_leaves_the_body() {
    let (front_matter, body) = parse_front_matter("---\njust text\n---\nBODY");
    assert!(front_matter.is_none());
    assert_eq!(body, "BODY");
}

#[test]
fn a_heading_with_only_an_image_has_an_empty_slug() {
    let (html, toc) = render_markdown_with_toc("# ![](x.png)\n\n# ![](y.png)");
    assert_eq!(toc, vec![heading("", "", 1), heading("-1", "", 1)]);
    assert!(html.contains("<h1 id=\"\">"));
    assert!(html.contains("<h1 id=\"-1\">"));
}

#[test]
fn the_alternative_text_of_an_image_is_heading_text() {
    let (_, toc) = render_markdown_with_toc("## ![The Pic](x.png)");
    assert_eq!(toc, vec![heading("the-pic", "The Pic", 2)]);
}

#[test]
fn deeply_nested_markdown_is_rendered() {
    let mut text = String::new();
    for _ in 0..300 {
        text.push_str("> ");
    }
    text.push_str("deep\n\n");
    for depth in 0..60 {
        for _ in 0..depth {
            text.push_str("  ");
        }
        text.push_str("- item\n");
    }
    text.push_str("\n# End\n");
    let (html, toc) = render_markdown_with_toc(&text);
    assert!(html.contains("deep"));
    assert_eq!(toc.len(), 1);
    assert_eq!(toc[0].id, "end");
}

#[test]
fn identifiers_are_not_escaped_in_the_tag() {
    let (html, toc) = render_markdown_with_toc("# Ünïcode Ädventure");
    assert_eq!(toc, vec![heading("ünïcode-ädventure", "Ünïcode Ädventure", 1)]);
    assert_eq!(html, "<h1>Ünïcode Ädventure<h1 id=\"ünïcode-ädventure\">");
}

#[test]
fn a_heading_inside_a_quote_is_listed() {
    let (_, toc) = render_markdown_with_toc("> # Quoted\n\n# Plain");
    assert_eq!(toc.len(), 2);
    assert_eq!(toc[0].id, "quoted");
    assert_eq!(toc[0].level, 1);
    assert_eq!(toc[1].text, "Plain");
}
