//! The table of contents of a document, built in one pass over the events
//! that parsing its Markdown gives.

use vstd::prelude::*;
use vstd::string::StringExecFns;
use crate::models::markdown::{toc_view, Heading, HeadingView};
use crate::slug::{
    base_slug,
    lemma_unique_ids_differ,
    occurrences,
    slugify,
    unique_id,
    SlugCounter,
};
use crate::text::{decimal, push_decimal};

verus! {

/// What the table of contents reads of one parsing event.
#[derive(Debug, Clone, PartialEq, Eq)]
pub enum MdEvent {
    /// A heading of the given level opens.
    HeadingStart(u32),
    /// A run of text.
    Text(String),
    /// A heading of the given level closes.
    HeadingEnd(u32),
    /// Any other event.
    Other,
}

/// An event as a mathematical value.
pub enum MdEventView {
    HeadingStart(nat),
    Text(Seq<char>),
    HeadingEnd(nat),
    Other,
}

impl View for MdEvent {
    type V = MdEventView;

    open spec fn view(&self) -> MdEventView {
        match self {
            MdEvent::HeadingStart(level) => MdEventView::HeadingStart(*level as nat),
            MdEvent::Text(text) => MdEventView::Text(text@),
            MdEvent::HeadingEnd(level) => MdEventView::HeadingEnd(*level as nat),
            MdEvent::Other => MdEventView::Other,
        }
    }
}

/// A list of events as a sequence of mathematical events.
pub open spec fn events_view(events: Seq<MdEvent>) -> Seq<MdEventView> {
    events.map_values(|e: MdEvent| e@)
}

/// The state of the pass: the headings met so far, in document order, and
/// how often each base slug was given out.
pub struct TocState {
    pub toc: Seq<HeadingView>,
    pub counts: Map<Seq<char>, nat>,
}

/// The state before the first event.
pub open spec fn initial_state() -> TocState {
    TocState { toc: Seq::empty(), counts: Map::empty() }
}

/// The opening tag that carries a heading's identifier.
pub open spec fn heading_tag(level: nat, id: Seq<char>) -> Seq<char> {
    "<h"@ + decimal(level) + " id=\""@ + id + "\">"@
}

/// The identifier that closing the last heading of `s` gives it.
pub open spec fn closing_id(s: TocState) -> Seq<char> {
    let base = base_slug(s.toc.last().text);
    unique_id(base, occurrences(s.counts, base))
}

/// The state after one more event.
///
/// A heading that opens is appended with empty identifier and text. Text is
/// appended to the text of the last heading, whether or not that heading is
/// still open. A heading that closes gives the last heading its identifier
/// and counts its base slug once more. With no heading met yet, text and a
/// closing heading change nothing.
pub open spec fn step_state(s: TocState, event: MdEventView) -> TocState {
    match event {
        MdEventView::HeadingStart(level) => TocState {
            toc: s.toc.push(HeadingView { id: Seq::empty(), text: Seq::empty(), level }),
            counts: s.counts,
        },
        MdEventView::Text(text) => if s.toc.len() > 0 {
            let last = s.toc.last();
            TocState {
                toc: s.toc.drop_last().push(
                    HeadingView { id: last.id, text: last.text + text, level: last.level },
                ),
                counts: s.counts,
            }
        } else {
            s
        },
        MdEventView::HeadingEnd(_) => if s.toc.len() > 0 {
            let last = s.toc.last();
            let base = base_slug(last.text);
            TocState {
                toc: s.toc.drop_last().push(
                    HeadingView { id: closing_id(s), text: last.text, level: last.level },
                ),
                counts: s.counts.insert(base, occurrences(s.counts, base) + 1),
            }
        } else {
            s
        },
        MdEventView::Other => s,
    }
}

/// The raw HTML that takes the place of an event, if any does: a closing
/// heading, met after at least one heading, is replaced by the opening tag
/// that carries the identifier; every other event stays as it is.
pub open spec fn step_output(s: TocState, event: MdEventView) -> Option<Seq<char>> {
    match event {
        MdEventView::HeadingEnd(level) => if s.toc.len() > 0 {
            Some(heading_tag(level, closing_id(s)))
        } else {
            None
        },
        _ => None,
    }
}

/// The state after all of `events`, taken from left to right.
pub open spec fn state_after(events: Seq<MdEventView>) -> TocState
    decreases events.len(),
{
    if events.len() == 0 {
        initial_state()
    } else {
        step_state(state_after(events.drop_last()), events.last())
    }
}

/// The table of contents of a document with the events `events`.
pub open spec fn toc_of(events: Seq<MdEventView>) -> Seq<HeadingView> {
    state_after(events).toc
}

/// For each event of `events`, the raw HTML that takes its place, if any.
pub open spec fn replacements_of(events: Seq<MdEventView>) -> Seq<Option<Seq<char>>> {
    Seq::new(events.len(), |i: int| step_output(state_after(events.take(i)), events[i]))
}

/// A list of optional strings as a sequence of optional texts.
pub open spec fn replacements_view(list: Seq<Option<String>>) -> Seq<Option<Seq<char>>> {
    list.map_values(
        |r: Option<String>|
            match r {
                Some(html) => Some(html@),
                None => None,
            },
    )
}

/// Builds a table of contents event by event.
pub struct TocBuilder {
    toc: Vec<Heading>,
    counter: SlugCounter,
    handled: usize,
}

impl View for TocBuilder {
    type V = TocState;

    closed spec fn view(&self) -> TocState {
        TocState { toc: toc_view(self.toc@), counts: self.counter@ }
    }
}

impl TocBuilder {
    /// The number of events handled so far.
    pub closed spec fn handled(&self) -> nat {
        self.handled as nat
    }

    /// The counter is in order, and no slug was counted more often than
    /// events were handled.
    pub closed spec fn well_formed(&self) -> bool {
        &&& self.counter.well_formed()
        &&& forall|slug: Seq<char>| occurrences(self.counter@, slug) <= self.handled
    }

    /// A builder that has seen no event.
    pub fn new() -> (builder: TocBuilder)
        ensures
            builder.well_formed(),
            builder.handled() == 0,
            builder@ == initial_state(),
    {
        let builder = TocBuilder { toc: Vec::new(), counter: SlugCounter::new(), handled: 0 };
        assert(builder@.toc =~= Seq::<HeadingView>::empty());
        builder
    }

    /// Handles one event and returns the raw HTML that takes its place in
    /// the rendering, if any does.
    pub fn handle(&mut self, event: &MdEvent) -> (replacement: Option<String>)
        requires
            old(self).well_formed(),
            old(self).handled() < usize::MAX,
        ensures
            final(self).well_formed(),
            final(self).handled() == old(self).handled() + 1,
            final(self)@ == step_state(old(self)@, event@),
            match replacement {
                Some(html) => step_output(old(self)@, event@) == Some(html@),
                None => step_output(old(self)@, event@) is None,
            },
    {
        let ghost before = self@;
        let ghost counts = self.counter@;
        assert(forall|slug: Seq<char>| occurrences(counts, slug) <= self.handled);
        self.handled = self.handled + 1;
        match event {
            MdEvent::HeadingStart(level) => {
                self.toc.push(Heading { id: String::new(), text: String::new(), level: *level });
                assert(self@.toc =~= step_state(before, event@).toc);
                None
            },
            MdEvent::Text(text) => {
                if self.toc.len() > 0 {
                    let mut last = self.toc.pop().unwrap();
                    last.text.append(text.as_str());
                    self.toc.push(last);
                    assert(self@.toc =~= step_state(before, event@).toc);
                }
                None
            },
            MdEvent::HeadingEnd(level) => {
                if self.toc.len() > 0 {
                    let mut last = self.toc.pop().unwrap();
                    let base = slugify(last.text.as_str());
                    let id = self.counter.assign(base);
                    assert forall|slug: Seq<char>| occurrences(self.counter@, slug)
                        <= self.handled by {
                        assert(occurrences(counts, slug) <= self.handled - 1);
                    }
                    let mut html = String::new();
                    html.append("<h");
                    push_decimal(&mut html, *level as u64);
                    html.append(" id=\"");
                    html.append(id.as_str());
                    html.append("\">");
                    last.id = id;
                    self.toc.push(last);
                    assert(self@.toc =~= step_state(before, event@).toc);
                    Some(html)
                } else {
                    None
                }
            },
            MdEvent::Other => None,
        }
    }

    /// The table of contents built so far.
    pub fn finish(self) -> (toc: Vec<Heading>)
        ensures
            toc_view(toc@) == self@.toc,
    {
        self.toc
    }
}

/// Builds the table of contents of a document from its events, together
/// with the raw HTML that replaces each event in the rendering.
pub fn build_toc(events: &Vec<MdEvent>) -> (out: (Vec<Heading>, Vec<Option<String>>))
    ensures
        toc_view(out.0@) == toc_of(events_view(events@)),
        replacements_view(out.1@) == replacements_of(events_view(events@)),
{
    let ghost all = events_view(events@);
    let mut builder = TocBuilder::new();
    let mut replacements: Vec<Option<String>> = Vec::new();
    let mut i: usize = 0;
    assert(all.take(0) =~= Seq::<MdEventView>::empty());
    while i < events.len()
        invariant
            i <= events.len(),
            all == events_view(events@),
            builder.well_formed(),
            builder.handled() == i,
            builder@ == state_after(all.take(i as int)),
            replacements_view(replacements@) == replacements_of(all).take(i as int),
        decreases events.len() - i,
    {
        let ghost before = builder@;
        let replacement = builder.handle(&events[i]);
        proof {
            assert(all.take(i + 1).drop_last() =~= all.take(i as int));
            assert(all.take(i + 1).last() == events@[i as int]@);
            let shown = step_output(before, all[i as int]);
            assert(replacements_view(replacements@.push(replacement)) =~= replacements_view(
                replacements@,
            ).push(shown));
            assert(replacements_of(all).take(i + 1) =~= replacements_of(all).take(i as int).push(
                step_output(before, all[i as int]),
            ));
        }
        replacements.push(replacement);
        i += 1;
    }
    assert(all.take(events.len() as int) =~= all);
    assert(replacements_of(all).take(events.len() as int) =~= replacements_of(all));
    (builder.finish(), replacements)
}

/// The levels of the headings that open in `events`, in document order.
pub open spec fn opened_levels(events: Seq<MdEventView>) -> Seq<nat>
    decreases events.len(),
{
    if events.len() == 0 {
        Seq::empty()
    } else {
        match events.last() {
            MdEventView::HeadingStart(level) => opened_levels(events.drop_last()).push(level),
            _ => opened_levels(events.drop_last()),
        }
    }
}

/// The levels of a table of contents, in its order.
pub open spec fn levels_of(toc: Seq<HeadingView>) -> Seq<nat> {
    toc.map_values(|h: HeadingView| h.level)
}

/// The table of contents lists the headings in document order: it has one
/// entry for each heading that opens, in the order in which they open, with
/// the level it opened with.
pub proof fn lemma_toc_in_document_order(events: Seq<MdEventView>)
    ensures
        levels_of(toc_of(events)) == opened_levels(events),
    decreases events.len(),
{
    if events.len() == 0 {
        assert(levels_of(toc_of(events)) =~= opened_levels(events));
    } else {
        lemma_toc_in_document_order(events.drop_last());
        let before = state_after(events.drop_last());
        let after = state_after(events);
        assert(after == step_state(before, events.last()));
        assert(levels_of(before.toc) == opened_levels(events.drop_last()));
        match events.last() {
            MdEventView::HeadingStart(level) => {
                assert(levels_of(after.toc) =~= levels_of(before.toc).push(level));
            },
            _ => {
                assert(levels_of(after.toc) =~= levels_of(before.toc));
            },
        }
    }
}

/// Every level among `opened_levels(events)` is the level of a heading that
/// opens in `events`.
pub proof fn lemma_opened_levels_come_from_events(events: Seq<MdEventView>, k: int)
    requires
        0 <= k < opened_levels(events).len(),
    ensures
        exists|i: int|
            0 <= i < events.len() && #[trigger] events[i] == MdEventView::HeadingStart(
                opened_levels(events)[k],
            ),
    decreases events.len(),
{
    if events.len() > 0 {
        let rest = events.drop_last();
        let last = events.len() - 1;
        match events.last() {
            MdEventView::HeadingStart(level) => {
                if k == opened_levels(rest).len() {
                    assert(events[last] == MdEventView::HeadingStart(opened_levels(events)[k]));
                } else {
                    lemma_opened_levels_come_from_events(rest, k);
                    let i = choose|i: int|
                        0 <= i < rest.len() && #[trigger] rest[i] == MdEventView::HeadingStart(
                            opened_levels(rest)[k],
                        );
                    assert(events[i] == rest[i]);
                }
            },
            _ => {
                lemma_opened_levels_come_from_events(rest, k);
                let i = choose|i: int|
                    0 <= i < rest.len() && #[trigger] rest[i] == MdEventView::HeadingStart(
                        opened_levels(rest)[k],
                    );
                assert(events[i] == rest[i]);
            },
        }
    }
}

/// One heading that closed: its base slug and the identifier it was given.
pub struct Closing {
    pub base: Seq<char>,
    pub id: Seq<char>,
}

/// The headings that closed in `events`, in document order: one for each
/// closing heading that was met after at least one heading had opened.
pub open spec fn closings(events: Seq<MdEventView>) -> Seq<Closing>
    decreases events.len(),
{
    if events.len() == 0 {
        Seq::empty()
    } else {
        let before = state_after(events.drop_last());
        let earlier = closings(events.drop_last());
        if events.last() is HeadingEnd && before.toc.len() > 0 {
            earlier.push(
                Closing { base: base_slug(before.toc.last().text), id: closing_id(before) },
            )
        } else {
            earlier
        }
    }
}

/// How many of `closed` have the base slug `base`.
pub open spec fn times(closed: Seq<Closing>, base: Seq<char>) -> nat
    decreases closed.len(),
{
    if closed.len() == 0 {
        0
    } else if closed.last().base == base {
        times(closed.drop_last(), base) + 1
    } else {
        times(closed.drop_last(), base)
    }
}

/// The count of a base slug is the number of headings that closed with it.
pub proof fn lemma_counts_are_closings(events: Seq<MdEventView>, base: Seq<char>)
    ensures
        occurrences(state_after(events).counts, base) == times(closings(events), base),
    decreases events.len(),
{
    if events.len() > 0 {
        lemma_counts_are_closings(events.drop_last(), base);
        let before = state_after(events.drop_last());
        let earlier = closings(events.drop_last());
        if events.last() is HeadingEnd && before.toc.len() > 0 {
            let closed = base_slug(before.toc.last().text);
            lemma_counts_are_closings(events.drop_last(), closed);
            assert(closings(events).drop_last() =~= earlier);
            assert(closings(events).last().base == closed);
        }
    }
}

/// Among more closed headings a base slug is not found less often.
pub proof fn lemma_times_grow(closed: Seq<Closing>, base: Seq<char>, n: int)
    requires
        0 <= n <= closed.len(),
    ensures
        times(closed.take(n), base) <= times(closed, base),
        n < closed.len() && closed[n].base == base ==> times(closed.take(n), base) < times(
            closed,
            base,
        ),
    decreases closed.len(),
{
    if n == closed.len() {
        assert(closed.take(n) =~= closed);
    } else {
        let rest = closed.drop_last();
        assert(rest.take(n) =~= closed.take(n));
        if n < rest.len() {
            lemma_times_grow(rest, base, n);
            assert(rest[n] == closed[n]);
        } else {
            assert(rest.take(n) =~= rest);
        }
    }
}

/// Collisions are counted per document and per base slug: a heading that
/// closes is given the identifier of its base slug and of the number of
/// headings that closed with the same base slug before it.
pub proof fn lemma_closing_ids(events: Seq<MdEventView>, k: int)
    requires
        0 <= k < closings(events).len(),
    ensures
        closings(events)[k].id == unique_id(
            closings(events)[k].base,
            times(closings(events).take(k), closings(events)[k].base),
        ),
    decreases events.len(),
{
    if events.len() > 0 {
        let before = state_after(events.drop_last());
        let earlier = closings(events.drop_last());
        if k < earlier.len() {
            lemma_closing_ids(events.drop_last(), k);
            assert(closings(events).take(k) =~= earlier.take(k));
        } else {
            assert(closings(events).take(k) =~= earlier);
            lemma_counts_are_closings(events.drop_last(), base_slug(before.toc.last().text));
        }
    }
}

/// Two headings that closed with the same base slug were given different
/// identifiers.
pub proof fn lemma_same_slug_different_ids(events: Seq<MdEventView>, i: int, j: int)
    requires
        0 <= i < j < closings(events).len(),
        closings(events)[i].base == closings(events)[j].base,
    ensures
        closings(events)[i].id != closings(events)[j].id,
{
    let closed = closings(events);
    let base = closed[i].base;
    lemma_closing_ids(events, i);
    lemma_closing_ids(events, j);
    let until_j = closed.take(j);
    assert(until_j.take(i) =~= closed.take(i));
    assert(until_j[i] == closed[i]);
    lemma_times_grow(until_j, base, i);
    lemma_unique_ids_differ(base, times(closed.take(i), base), times(closed.take(j), base));
}

/// Whether the last heading that opened in `events` has not closed yet.
pub open spec fn heading_open(events: Seq<MdEventView>) -> bool
    decreases events.len(),
{
    if events.len() == 0 {
        false
    } else {
        match events.last() {
            MdEventView::HeadingStart(_) => true,
            MdEventView::HeadingEnd(_) => false,
            _ => heading_open(events.drop_last()),
        }
    }
}

/// Whether the headings of `events` are well nested: a heading opens only
/// while none is open, and closes only while one is.
pub open spec fn well_nested(events: Seq<MdEventView>) -> bool
    decreases events.len(),
{
    if events.len() == 0 {
        true
    } else {
        &&& well_nested(events.drop_last())
        &&& match events.last() {
            MdEventView::HeadingStart(_) => !heading_open(events.drop_last()),
            MdEventView::HeadingEnd(_) => heading_open(events.drop_last()),
            _ => true,
        }
    }
}

/// The identifiers of a table of contents, in its order.
pub open spec fn ids_of(toc: Seq<HeadingView>) -> Seq<Seq<char>> {
    toc.map_values(|h: HeadingView| h.id)
}

/// The identifiers given to the headings that closed, in document order.
pub open spec fn closing_ids(events: Seq<MdEventView>) -> Seq<Seq<char>> {
    closings(events).map_values(|c: Closing| c.id)
}

/// Where the headings are well nested, the identifiers of the table of
/// contents are those given to the headings as they closed, in the same
/// order, followed by the empty identifier of the heading that is still
/// open, if one is.
pub proof fn lemma_toc_ids(events: Seq<MdEventView>)
    requires
        well_nested(events),
    ensures
        ids_of(toc_of(events)) == (if heading_open(events) {
            closing_ids(events).push(Seq::empty())
        } else {
            closing_ids(events)
        }),
    decreases events.len(),
{
    if events.len() == 0 {
        assert(ids_of(toc_of(events)) =~= closing_ids(events));
    } else {
        let rest = events.drop_last();
        lemma_toc_ids(rest);
        let before = state_after(rest);
        let after = state_after(events);
        assert(after == step_state(before, events.last()));
        assert(ids_of(before.toc).len() == before.toc.len());
        match events.last() {
            MdEventView::HeadingStart(_) => {
                assert(closings(events) == closings(rest));
                assert(ids_of(after.toc) =~= ids_of(before.toc).push(Seq::empty()));
            },
            MdEventView::HeadingEnd(_) => {
                let open_id: Seq<char> = Seq::empty();
                assert(ids_of(before.toc) == closing_ids(rest).push(open_id));
                assert(before.toc.len() > 0);
                assert(closings(events) == closings(rest).push(
                    Closing { base: base_slug(before.toc.last().text), id: closing_id(before) },
                ));
                assert(closing_ids(events) =~= closing_ids(rest).push(closing_id(before)));
                assert(ids_of(before.toc).drop_last() =~= closing_ids(rest));
                assert(ids_of(after.toc) =~= ids_of(before.toc).drop_last().push(
                    closing_id(before),
                ));
            },
            MdEventView::Text(_) => {
                assert(closings(events) == closings(rest));
                assert(ids_of(after.toc) =~= ids_of(before.toc));
            },
            MdEventView::Other => {
                assert(closings(events) == closings(rest));
            },
        }
    }
}

/// Where the headings are well nested, two entries of the table of contents
/// that closed with the same base slug have different identifiers.
pub proof fn lemma_toc_ids_differ(events: Seq<MdEventView>, i: int, j: int)
    requires
        well_nested(events),
        0 <= i < j < closings(events).len(),
        closings(events)[i].base == closings(events)[j].base,
    ensures
        j < toc_of(events).len(),
        toc_of(events)[i].id != toc_of(events)[j].id,
{
    lemma_toc_ids(events);
    lemma_same_slug_different_ids(events, i, j);
    let ids = ids_of(toc_of(events));
    assert(ids.len() == toc_of(events).len());
    assert(closing_ids(events).len() == closings(events).len());
    assert(ids[i] == closing_ids(events)[i]);
    assert(ids[j] == closing_ids(events)[j]);
    assert(ids[i] == toc_of(events)[i].id);
    assert(ids[j] == toc_of(events)[j].id);
}

} // verus!
