//! Markdown parsing and HTML writing, as pulldown-cmark does them.

use vstd::prelude::*;
use pulldown_cmark::{html, Event, Options, Parser, Tag, TagEnd};
use crate::toc::{events_view, replacements_view, MdEvent, MdEventView};

verus! {

/// The events that parsing `text` gives, with the given extensions switched
/// on or off, each reduced to what the table of contents reads of it.
pub uninterp spec fn parsed_events(
    text: Seq<char>,
    tables: bool,
    footnotes: bool,
    strikethrough: bool,
) -> Seq<MdEventView>;

/// The HTML written for the events of `text`, parsed with the given
/// extensions, after each event that has a replacement gave way to a raw
/// HTML event holding it.
pub uninterp spec fn rendered_html(
    text: Seq<char>,
    tables: bool,
    footnotes: bool,
    strikethrough: bool,
    replacements: Seq<Option<Seq<char>>>,
) -> Seq<char>;

/// Whether every heading event of `events` has a level from 1 to 6.
pub open spec fn levels_in_range(events: Seq<MdEventView>) -> bool {
    forall|i: int|
        0 <= i < events.len() ==> match #[trigger] events[i] {
            MdEventView::HeadingStart(level) => 1 <= level <= 6,
            MdEventView::HeadingEnd(level) => 1 <= level <= 6,
            _ => true,
        }
}

/// Parses `text` and reduces each event to what the table of contents reads.
///
/// Trusted: runs `pulldown_cmark::Parser::new_ext` to its end. The events
/// depend on the text and the options alone, and the contract gives them
/// their name. A heading's level is one of the six variants of
/// `HeadingLevel`, whose numbers are 1 to 6.
#[verifier::external_body]
pub(crate) fn markdown_events(
    text: &str,
    tables: bool,
    footnotes: bool,
    strikethrough: bool,
) -> (events: Vec<MdEvent>)
    ensures
        events_view(events@) == parsed_events(text@, tables, footnotes, strikethrough),
        levels_in_range(events_view(events@)),
{
    let mut options = Options::empty();
    options.set(Options::ENABLE_TABLES, tables);
    options.set(Options::ENABLE_FOOTNOTES, footnotes);
    options.set(Options::ENABLE_STRIKETHROUGH, strikethrough);
    Parser::new_ext(text, options).map(|event| match event {
        Event::Start(Tag::Heading { level, .. }) => MdEvent::HeadingStart(level as u32),
        Event::Text(text) => MdEvent::Text(text.to_string()),
        Event::End(TagEnd::Heading(level)) => MdEvent::HeadingEnd(level as u32),
        _ => MdEvent::Other,
    }).collect()
}

/// Parses `text` again and writes its HTML, with every event that has a
/// replacement written as that raw HTML instead. There is one replacement,
/// present or not, for each event.
///
/// Trusted: runs `pulldown_cmark::Parser::new_ext` and hands the events to
/// `pulldown_cmark::html::push_html`. The HTML depends on the text, the
/// options and the replacements alone, and the contract gives it its name.
#[verifier::external_body]
pub(crate) fn html_with_replacements(
    text: &str,
    tables: bool,
    footnotes: bool,
    strikethrough: bool,
    replacements: Vec<Option<String>>,
) -> (out: String)
    requires
        replacements.len() == parsed_events(text@, tables, footnotes, strikethrough).len(),
    ensures
        out@ == rendered_html(
            text@,
            tables,
            footnotes,
            strikethrough,
            replacements_view(replacements@),
        ),
{
    let mut options = Options::empty();
    options.set(Options::ENABLE_TABLES, tables);
    options.set(Options::ENABLE_FOOTNOTES, footnotes);
    options.set(Options::ENABLE_STRIKETHROUGH, strikethrough);
    let events = Parser::new_ext(text, options).zip(replacements).map(|(event, replacement)| {
        replacement.map_or(event, |html| Event::Html(html.into()))
    });
    let mut out = String::new();
    html::push_html(&mut out, events);
    out
}

} // verus!
