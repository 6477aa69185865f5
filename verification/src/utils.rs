//! The entry points: rendering a Markdown body with its table of contents,
//! and parsing a whole document with its front matter.

use vstd::prelude::*;
use std::fmt::Write;
use crate::models::blog::Timestamp;
use crate::text::option_text;
use crate::front_matter::{opens, split_front_matter, split_of};
use crate::metadata::{decode_front_matter, decoded_block, front_matter_view};
use crate::models::markdown::{
    toc_view,
    FrontMatter,
    FrontMatterView,
    Heading,
    HeadingView,
    MarkdownContent,
    MarkdownContentView,
};
use crate::render::{html_with_replacements, markdown_events, parsed_events, rendered_html};
use crate::toc::{
    build_toc,
    events_view,
    lemma_opened_levels_come_from_events,
    lemma_toc_in_document_order,
    levels_of,
    replacements_of,
    replacements_view,
    toc_of,
    MdEventView,
};

verus! {

/// The events of a Markdown body, parsed with tables, footnotes and
/// strikethrough.
pub open spec fn document_events(markdown: Seq<char>) -> Seq<MdEventView> {
    parsed_events(markdown, true, true, true)
}

/// The table of contents of a Markdown body.
pub open spec fn toc_of_markdown(markdown: Seq<char>) -> Seq<HeadingView> {
    toc_of(document_events(markdown))
}

/// The HTML of a Markdown body: what is written for its events, with every
/// closing heading replaced by the opening tag that carries the heading's
/// identifier.
pub open spec fn html_of_markdown(markdown: Seq<char>) -> Seq<char> {
    rendered_html(markdown, true, true, true, replacements_of(document_events(markdown)))
}

/// Whether `html` and `toc` are the rendering of `markdown`.
pub open spec fn is_rendering_of(
    markdown: Seq<char>,
    html: Seq<char>,
    toc: Seq<HeadingView>,
) -> bool {
    html == html_of_markdown(markdown) && toc == toc_of_markdown(markdown)
}

/// Renders a Markdown body to HTML and builds its table of contents.
pub fn render_markdown_with_toc(markdown: &str) -> (out: (String, Vec<Heading>))
    ensures
        is_rendering_of(markdown@, out.0@, toc_view(out.1@)),
        forall|i: int| 0 <= i < out.1@.len() ==> 1 <= (#[trigger] out.1@[i]).level <= 6,
{
    let events = markdown_events(markdown, true, true, true);
    let (toc, replacements) = build_toc(&events);
    assert(replacements@.len() == replacements_view(replacements@).len());
    let html = html_with_replacements(markdown, true, true, true, replacements);
    proof {
        let all = events_view(events@);
        lemma_toc_in_document_order(all);
        assert forall|i: int| 0 <= i < toc@.len() implies 1 <= (#[trigger] toc@[i]).level <= 6 by {
            assert(levels_of(toc_view(toc@))[i] == toc@[i].level);
            lemma_opened_levels_come_from_events(all, i);
        }
    }
    (html, toc)
}

/// Rendering is a function of the text: two renderings of one text have the
/// same HTML and the same table of contents.
pub proof fn lemma_rendering_is_determined(
    markdown: Seq<char>,
    html_a: Seq<char>,
    toc_a: Seq<HeadingView>,
    html_b: Seq<char>,
    toc_b: Seq<HeadingView>,
)
    requires
        is_rendering_of(markdown, html_a, toc_a),
        is_rendering_of(markdown, html_b, toc_b),
    ensures
        html_a == html_b,
        toc_a == toc_b,
{
}

/// The front matter of a document: what its metadata block holds, if it has
/// one that can be decoded.
pub open spec fn front_matter_of(content: Seq<char>) -> Option<FrontMatterView> {
    match split_of(content) {
        Some((block, _)) => decoded_block(block),
        None => None,
    }
}

/// The body of a document: what follows the metadata block, or the whole
/// document where it has none.
pub open spec fn body_of(content: Seq<char>) -> Seq<char> {
    match split_of(content) {
        Some((_, body)) => body,
        None => content,
    }
}

/// Whether a document has a metadata block that cannot be decoded.
pub open spec fn decode_fails(content: Seq<char>) -> bool {
    match split_of(content) {
        Some((block, _)) => decoded_block(block) is None,
        None => false,
    }
}

/// The rendered document: its front matter, and the HTML and the table of
/// contents of its body.
pub open spec fn rendered_document(content: Seq<char>) -> MarkdownContentView {
    MarkdownContentView {
        front_matter: front_matter_of(content),
        html_content: html_of_markdown(body_of(content)),
        toc: toc_of_markdown(body_of(content)),
    }
}

/// Takes a document apart into its front matter, if it has any that can be
/// decoded, and its body.
pub fn parse_front_matter(content: &str) -> (out: (Option<FrontMatter>, String))
    ensures
        front_matter_view(out.0) == front_matter_of(content@),
        out.1@ == body_of(content@),
{
    match split_front_matter(content) {
        Some((block, body)) => (decode_front_matter(block.as_str()), body),
        None => (None, content.to_owned()),
    }
}

/// A document that does not begin with the opening line has no front
/// matter, and its body is the whole document.
pub proof fn lemma_without_opening_line(content: Seq<char>)
    requires
        !opens(content),
    ensures
        front_matter_of(content) is None,
        body_of(content) == content,
        !decode_fails(content),
{
}

/// Parses a document leniently: the body is always rendered, and the front
/// matter is left out where the document has none or it cannot be decoded.
pub fn parse_markdown_lenient(content: &str) -> (doc: MarkdownContent)
    ensures
        doc@ == rendered_document(content@),
{
    let (front_matter, body) = parse_front_matter(content);
    let (html_content, toc) = render_markdown_with_toc(body.as_str());
    MarkdownContent { front_matter, html_content, toc }
}

/// Parses a document strictly: returns `None` exactly when the document has
/// a metadata block that cannot be decoded, and the rendered document
/// otherwise.
pub fn parse_markdown(content: &str) -> (out: Option<MarkdownContent>)
    ensures
        match out {
            Some(doc) => !decode_fails(content@) && doc@ == rendered_document(content@),
            None => decode_fails(content@),
        },
{
    let (front_matter, body) = match split_front_matter(content) {
        Some((block, body)) => match decode_front_matter(block.as_str()) {
            Some(front_matter) => (Some(front_matter), body),
            None => {
                return None;
            },
        },
        None => (None, content.to_owned()),
    };
    let (html_content, toc) = render_markdown_with_toc(body.as_str());
    Some(MarkdownContent { front_matter, html_content, toc })
}

/// The text that the pattern `pattern` writes for the instant `secs` and
/// `nanos`, seen in the time zone named `zone`; `None` where the instant is
/// out of range, the zone is unknown or the pattern cannot be written.
pub uninterp spec fn formatted_time(
    secs: int,
    nanos: int,
    zone: Seq<char>,
    pattern: Seq<char>,
) -> Option<Seq<char>>;

/// Writes an instant in a time zone by a pattern.
///
/// Trusted: looks the zone up with chrono-tz's `Tz::from_str`, makes the
/// instant with `chrono::DateTime::from_timestamp`, moves it into the zone
/// with `with_timezone` and writes what `format` gives. Each step depends on
/// its arguments alone; the contract gives the outcome its name.
#[verifier::external_body]
fn format_in_zone(secs: i64, nanos: u32, zone: &str, pattern: &str) -> (out: Option<String>)
    ensures
        option_text(out) == formatted_time(secs as int, nanos as int, zone@, pattern@),
{
    let zone = zone.parse::<chrono_tz::Tz>().ok()?;
    let date = chrono::DateTime::from_timestamp(secs, nanos)?.with_timezone(&zone);
    let mut out = String::new();
    write!(out, "{}", date.format(pattern)).ok()?;
    Some(out)
}

/// The date and the minute of an instant in Shanghai, as year, month and
/// day with hyphens, a space, and hour and minute with a colon.
pub open spec fn formatted_cn(date: Timestamp) -> Option<Seq<char>> {
    formatted_time(date.secs as int, date.nanos as int, "Asia/Shanghai"@, "%Y-%m-%d %H:%M"@)
}

/// Writes the date and the minute of an instant in Shanghai. Returns `None`
/// where the instant is out of the range of the calendar.
pub fn format_date_cn(date: Timestamp) -> (text: Option<String>)
    ensures
        option_text(text) == formatted_cn(date),
{
    format_in_zone(date.secs, date.nanos, "Asia/Shanghai", "%Y-%m-%d %H:%M")
}

} // verus!
