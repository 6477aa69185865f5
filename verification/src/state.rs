//! What the reader has selected and searched for, and the articles that
//! answer it.

use vstd::prelude::*;
use crate::models::blog::{Article, ArticleView};
use crate::text::{
    chars_of,
    contains,
    contains_text,
    lowercase,
    lowercase_of,
    same_text,
    texts,
    trim,
    trimmed,
};

verus! {

/// A set of selected names, of tags or of categories, kept in the order in
/// which they were selected.
#[derive(Debug, Clone, PartialEq, Eq)]
pub struct Selection {
    names: Vec<String>,
}

impl View for Selection {
    type V = Set<Seq<char>>;

    closed spec fn view(&self) -> Set<Seq<char>> {
        Set::new(|name: Seq<char>| self.holds(name))
    }
}

impl Selection {
    spec fn holds(&self, name: Seq<char>) -> bool {
        exists|i: int| 0 <= i < self.names@.len() && (#[trigger] self.names@[i])@ == name
    }

    /// No name is held twice.
    pub closed spec fn well_formed(&self) -> bool {
        forall|i: int, j: int|
            0 <= i < j < self.names@.len() ==> (#[trigger] self.names@[i])@ != (
            #[trigger] self.names@[j])@
    }

    /// The selected names in the order in which they were selected.
    pub closed spec fn listed(&self) -> Seq<Seq<char>> {
        texts(self.names@)
    }

    /// The empty selection.
    pub fn new() -> (selection: Selection)
        ensures
            selection.well_formed(),
            selection@ == Set::<Seq<char>>::empty(),
    {
        let selection = Selection { names: Vec::new() };
        assert(selection@ =~= Set::<Seq<char>>::empty());
        selection
    }

    /// Whether nothing is selected.
    pub fn is_empty(&self) -> (empty: bool)
        ensures
            empty == (self@ == Set::<Seq<char>>::empty()),
    {
        let empty = self.names.len() == 0;
        proof {
            if empty {
                assert(self@ =~= Set::<Seq<char>>::empty());
            } else {
                assert(self.holds(self.names@[0]@));
                assert(self@.contains(self.names@[0]@));
            }
        }
        empty
    }

    /// The selected names in the order in which they were selected.
    pub fn names(&self) -> (names: &Vec<String>)
        ensures
            texts(names@) == self.listed(),
            forall|name: Seq<char>| self@.contains(name) <==> texts(names@).contains(name),
    {
        proof {
            assert forall|name: Seq<char>| self@.contains(name) <==> texts(self.names@).contains(
                name,
            ) by {
                if self@.contains(name) {
                    let i = choose|i: int|
                        0 <= i < self.names@.len() && (#[trigger] self.names@[i])@ == name;
                    assert(texts(self.names@)[i] == name);
                }
                if texts(self.names@).contains(name) {
                    let i = choose|i: int|
                        0 <= i < texts(self.names@).len() && texts(self.names@)[i] == name;
                    assert(self.names@[i]@ == name);
                }
            }
        }
        &self.names
    }

    fn position(&self, name: &str) -> (at: usize)
        ensures
            at <= self.names@.len(),
            at < self.names@.len() ==> self.names@[at as int]@ == name@,
            at == self.names@.len() ==> !self@.contains(name@),
            forall|j: int| 0 <= j < at ==> (#[trigger] self.names@[j])@ != name@,
    {
        let mut i: usize = 0;
        while i < self.names.len()
            invariant
                i <= self.names.len(),
                forall|j: int| 0 <= j < i ==> (#[trigger] self.names@[j])@ != name@,
            decreases self.names.len() - i,
        {
            if same_text(self.names[i].as_str(), name) {
                return i;
            }
            i += 1;
        }
        i
    }

    /// Whether `name` is selected.
    pub fn contains(&self, name: &str) -> (yes: bool)
        ensures
            yes == self@.contains(name@),
    {
        let at = self.position(name);
        proof {
            if at < self.names.len() {
                assert(self.holds(name@));
            }
        }
        at < self.names.len()
    }

    /// Selects `name`; nothing changes where it is selected already.
    pub fn insert(&mut self, name: String)
        requires
            old(self).well_formed(),
        ensures
            final(self).well_formed(),
            final(self)@ == old(self)@.insert(name@),
    {
        let ghost before = *self;
        let at = self.position(name.as_str());
        if at == self.names.len() {
            self.names.push(name);
            proof {
                let after = *self;
                assert(after.names@[at as int]@ == name@);
                assert forall|other: Seq<char>| after.holds(other) == (before.holds(other) || other
                    == name@) by {
                    if before.holds(other) {
                        let i = choose|i: int|
                            0 <= i < before.names@.len() && (#[trigger] before.names@[i])@
                                == other;
                        assert(after.names@[i]@ == other);
                    }
                    if after.holds(other) && other != name@ {
                        let i = choose|i: int|
                            0 <= i < after.names@.len() && (#[trigger] after.names@[i])@ == other;
                        assert(before.names@[i]@ == other);
                    }
                }
                assert(after@ =~= before@.insert(name@));
            }
        } else {
            proof {
                assert(before.holds(name@));
                assert(before@ =~= before@.insert(name@));
            }
        }
    }

    /// Takes `name` out of the selection; nothing changes where it is not
    /// selected.
    pub fn remove(&mut self, name: &str)
        requires
            old(self).well_formed(),
        ensures
            final(self).well_formed(),
            final(self)@ == old(self)@.remove(name@),
    {
        let ghost before = *self;
        let at = self.position(name);
        if at < self.names.len() {
            self.names.remove(at);
            proof {
                let after = *self;
                assert(after.names@ == before.names@.remove(at as int));
                assert forall|i: int, j: int| 0 <= i < j < after.names@.len() implies (
                #[trigger] after.names@[i])@ != (#[trigger] after.names@[j])@ by {
                    let oi = if i < at { i } else { i + 1 };
                    let oj = if j < at { j } else { j + 1 };
                    assert(after.names@[i] == before.names@[oi]);
                    assert(after.names@[j] == before.names@[oj]);
                }
                assert forall|other: Seq<char>| after.holds(other) == (before.holds(other) && other
                    != name@) by {
                    if before.holds(other) && other != name@ {
                        let i = choose|i: int|
                            0 <= i < before.names@.len() && (#[trigger] before.names@[i])@
                                == other;
                        let k = if i < at { i } else { i - 1 };
                        assert(after.names@[k]@ == other);
                    }
                    if after.holds(other) {
                        let i = choose|i: int|
                            0 <= i < after.names@.len() && (#[trigger] after.names@[i])@ == other;
                        let o = if i < at { i } else { i + 1 };
                        assert(before.names@[o]@ == other);
                        assert(before.names@[at as int]@ == name@);
                    }
                }
                assert(after@ =~= before@.remove(name@));
            }
        } else {
            proof {
                assert(before@ =~= before@.remove(name@));
            }
        }
    }

    /// Empties the selection.
    pub fn clear(&mut self)
        ensures
            final(self).well_formed(),
            final(self)@ == Set::<Seq<char>>::empty(),
    {
        self.names.clear();
        assert(self@ =~= Set::<Seq<char>>::empty());
    }
}

/// Selects the tag `tag`.
pub fn add_tag(selected_tags: &mut Selection, tag: String)
    requires
        old(selected_tags).well_formed(),
    ensures
        final(selected_tags).well_formed(),
        final(selected_tags)@ == old(selected_tags)@.insert(tag@),
{
    selected_tags.insert(tag);
}

/// Selects the category `category`.
pub fn add_category(selected_categories: &mut Selection, category: String)
    requires
        old(selected_categories).well_formed(),
    ensures
        final(selected_categories).well_formed(),
        final(selected_categories)@ == old(selected_categories)@.insert(category@),
{
    selected_categories.insert(category);
}

/// Takes the tag `tag` out of the selection.
pub fn remove_tag(selected_tags: &mut Selection, tag: String)
    requires
        old(selected_tags).well_formed(),
    ensures
        final(selected_tags).well_formed(),
        final(selected_tags)@ == old(selected_tags)@.remove(tag@),
{
    selected_tags.remove(tag.as_str());
}

/// Takes the category `category` out of the selection.
pub fn remove_category(selected_categories: &mut Selection, category: String)
    requires
        old(selected_categories).well_formed(),
    ensures
        final(selected_categories).well_formed(),
        final(selected_categories)@ == old(selected_categories)@.remove(category@),
{
    selected_categories.remove(category.as_str());
}

/// Whether the tag `tag` is selected.
pub fn is_selected_tag(selected_tags: &Selection, tag: &str) -> (yes: bool)
    ensures
        yes == selected_tags@.contains(tag@),
{
    selected_tags.contains(tag)
}

/// Whether the category `category` is selected.
pub fn is_selected_category(selected_categories: &Selection, category: &str) -> (yes: bool)
    ensures
        yes == selected_categories@.contains(category@),
{
    selected_categories.contains(category)
}

/// The selection with `name` switched: taken out where it was selected,
/// selected where it was not.
pub open spec fn switched(selected: Set<Seq<char>>, name: Seq<char>) -> Set<Seq<char>> {
    if selected.contains(name) {
        selected.remove(name)
    } else {
        selected.insert(name)
    }
}

/// Switches the tag `tag`: takes it out where it is selected, selects it
/// where it is not.
pub fn switch_tag_selected(selected_tags: &mut Selection, tag: String)
    requires
        old(selected_tags).well_formed(),
    ensures
        final(selected_tags).well_formed(),
        final(selected_tags)@ == switched(old(selected_tags)@, tag@),
{
    if is_selected_tag(selected_tags, tag.as_str()) {
        remove_tag(selected_tags, tag);
    } else {
        add_tag(selected_tags, tag);
    }
}

/// Switches the category `category`: takes it out where it is selected,
/// selects it where it is not.
pub fn switch_category_selected(selected_categories: &mut Selection, category: String)
    requires
        old(selected_categories).well_formed(),
    ensures
        final(selected_categories).well_formed(),
        final(selected_categories)@ == switched(old(selected_categories)@, category@),
{
    if is_selected_category(selected_categories, category.as_str()) {
        remove_category(selected_categories, category);
    } else {
        add_category(selected_categories, category);
    }
}

/// Empties both selections.
pub fn clear_filters(selected_tags: &mut Selection, selected_categories: &mut Selection)
    ensures
        final(selected_tags).well_formed(),
        final(selected_categories).well_formed(),
        final(selected_tags)@ == Set::<Seq<char>>::empty(),
        final(selected_categories)@ == Set::<Seq<char>>::empty(),
{
    selected_tags.clear();
    selected_categories.clear();
}

/// Switching a name twice gives the selection back.
pub proof fn lemma_switch_twice(selected: Set<Seq<char>>, name: Seq<char>)
    ensures
        switched(switched(selected, name), name) == selected,
{
    assert(switched(switched(selected, name), name) =~= selected);
}

/// The positions at which `flags` holds `true`, in rising order.
pub open spec fn positions(flags: Seq<bool>) -> Seq<int>
    decreases flags.len(),
{
    if flags.len() == 0 {
        Seq::empty()
    } else if flags.last() {
        positions(flags.drop_last()).push(flags.len() - 1)
    } else {
        positions(flags.drop_last())
    }
}

/// A list of positions as a sequence of integers.
pub open spec fn positions_view(list: Seq<usize>) -> Seq<int> {
    list.map_values(|i: usize| i as int)
}

/// The positions found in the first `n` flags are the first of those found
/// in all of them.
pub proof fn lemma_positions_prefix(flags: Seq<bool>, n: int)
    requires
        0 <= n <= flags.len(),
    ensures
        positions(flags.take(n)).len() <= positions(flags).len(),
        positions(flags).take(positions(flags.take(n)).len() as int) == positions(flags.take(n)),
    decreases flags.len(),
{
    if n == flags.len() {
        assert(flags.take(n) =~= flags);
        assert(positions(flags).take(positions(flags).len() as int) =~= positions(flags));
    } else {
        let rest = flags.drop_last();
        assert(rest.take(n) =~= flags.take(n));
        lemma_positions_prefix(rest, n);
        let k = positions(flags.take(n)).len() as int;
        assert(positions(flags).take(k) =~= positions(rest).take(k));
    }
}

/// Every position found is a position of the list, and holds `true`.
pub proof fn lemma_positions_hold(flags: Seq<bool>, k: int)
    requires
        0 <= k < positions(flags).len(),
    ensures
        0 <= positions(flags)[k] < flags.len(),
        flags[positions(flags)[k]],
    decreases flags.len(),
{
    if flags.len() > 0 {
        let rest = flags.drop_last();
        if k < positions(rest).len() {
            lemma_positions_hold(rest, k);
        }
    }
}

/// Whether one of `names` is selected.
pub open spec fn any_selected(names: Seq<Seq<char>>, selected: Set<Seq<char>>) -> bool {
    exists|i: int| 0 <= i < names.len() && selected.contains(#[trigger] names[i])
}

/// Whether an article passes the filters: it carries a selected tag, or no
/// tag is selected; and it is in a selected category, or none is selected.
pub open spec fn passes(
    article: ArticleView,
    tags: Set<Seq<char>>,
    categories: Set<Seq<char>>,
) -> bool {
    &&& tags == Set::<Seq<char>>::empty() || any_selected(article.tags, tags)
    &&& categories == Set::<Seq<char>>::empty() || any_selected(article.categories, categories)
}

/// The positions of the articles that pass the filters.
pub open spec fn filtered(
    articles: Seq<Article>,
    tags: Set<Seq<char>>,
    categories: Set<Seq<char>>,
) -> Seq<int> {
    positions(articles.map_values(|a: Article| passes(a@, tags, categories)))
}

fn any_name_selected(names: &[String], selected: &Selection) -> (yes: bool)
    ensures
        yes == any_selected(texts(names@), selected@),
{
    let mut i: usize = 0;
    while i < names.len()
        invariant
            i <= names.len(),
            forall|j: int| 0 <= j < i ==> !selected@.contains(#[trigger] texts(names@)[j]),
        decreases names.len() - i,
    {
        if selected.contains(names[i].as_str()) {
            assert(selected@.contains(texts(names@)[i as int]));
            return true;
        }
        i += 1;
    }
    false
}

/// Whether an article passes the filters.
pub fn passes_filters(
    article: &Article,
    selected_tags: &Selection,
    selected_categories: &Selection,
) -> (yes: bool)
    ensures
        yes == passes(article@, selected_tags@, selected_categories@),
{
    (selected_tags.is_empty() || any_name_selected(article.tags(), selected_tags)) && (
    selected_categories.is_empty() || any_name_selected(
        article.categories(),
        selected_categories,
    ))
}

/// The positions, in rising order, of the articles that pass the filters.
pub fn filtered_results(
    articles: &Vec<Article>,
    selected_tags: &Selection,
    selected_categories: &Selection,
) -> (out: Vec<usize>)
    ensures
        positions_view(out@) == filtered(articles@, selected_tags@, selected_categories@),
{
    let ghost flags = articles@.map_values(
        |a: Article| passes(a@, selected_tags@, selected_categories@),
    );
    let mut out: Vec<usize> = Vec::new();
    let mut i: usize = 0;
    assert(flags.take(0) =~= Seq::<bool>::empty());
    while i < articles.len()
        invariant
            i <= articles.len(),
            flags == articles@.map_values(
                |a: Article| passes(a@, selected_tags@, selected_categories@),
            ),
            positions_view(out@) == positions(flags.take(i as int)),
        decreases articles.len() - i,
    {
        proof {
            assert(flags.take(i + 1).drop_last() =~= flags.take(i as int));
            assert(flags.take(i + 1).last() == flags[i as int]);
        }
        let ghost before = out@;
        if passes_filters(&articles[i], selected_tags, selected_categories) {
            out.push(i);
            assert(positions_view(out@) =~= positions_view(before).push(i as int));
        }
        i += 1;
    }
    assert(flags.take(articles.len() as int) =~= flags);
    out
}

/// The most articles that a search shows.
pub const SEARCH_LIMIT: usize = 10;

/// What is searched for: the query without the whitespace around it, in
/// lowercase.
pub open spec fn normalized(query: Seq<char>) -> Seq<char> {
    lowercase_of(trimmed(query))
}

/// Whether one of `names`, in lowercase, holds `needle`.
pub open spec fn any_holds(names: Seq<Seq<char>>, needle: Seq<char>) -> bool {
    exists|i: int| 0 <= i < names.len() && contains_text(lowercase_of(#[trigger] names[i]), needle)
}

/// Whether an article answers a search: its title, its text, one of its
/// tags or one of its categories, in lowercase, holds `needle`.
pub open spec fn answers(article: ArticleView, needle: Seq<char>) -> bool {
    ||| contains_text(lowercase_of(article.title), needle)
    ||| contains_text(lowercase_of(article.content), needle)
    ||| any_holds(article.tags, needle)
    ||| any_holds(article.categories, needle)
}

/// The positions of all articles that answer a search for `needle`.
pub open spec fn answering(articles: Seq<Article>, needle: Seq<char>) -> Seq<int> {
    positions(articles.map_values(|a: Article| answers(a@, needle)))
}

/// What a search for `query` shows: nothing for a query that is empty once
/// normalized; otherwise the first articles that answer it, ten at most.
pub open spec fn searched(articles: Seq<Article>, query: Seq<char>) -> Seq<int> {
    let needle = normalized(query);
    if needle.len() == 0 {
        Seq::empty()
    } else {
        let all = answering(articles, needle);
        if all.len() <= SEARCH_LIMIT {
            all
        } else {
            all.take(SEARCH_LIMIT as int)
        }
    }
}

fn holds(text: &str, needle: &Vec<char>) -> (yes: bool)
    ensures
        yes == contains_text(lowercase_of(text@), needle@),
{
    let lower = lowercase(text);
    let hay = chars_of(lower.as_str());
    contains(&hay, needle)
}

fn any_name_holds(names: &[String], needle: &Vec<char>) -> (yes: bool)
    ensures
        yes == any_holds(texts(names@), needle@),
{
    let mut i: usize = 0;
    while i < names.len()
        invariant
            i <= names.len(),
            forall|j: int|
                0 <= j < i ==> !contains_text(lowercase_of(#[trigger] texts(names@)[j]), needle@),
        decreases names.len() - i,
    {
        if holds(names[i].as_str(), needle) {
            assert(contains_text(lowercase_of(texts(names@)[i as int]), needle@));
            return true;
        }
        i += 1;
    }
    false
}

/// Whether an article answers a search for `needle`.
pub fn answers_search(article: &Article, needle: &Vec<char>) -> (yes: bool)
    ensures
        yes == answers(article@, needle@),
{
    holds(article.title(), needle) || holds(article.content(), needle) || any_name_holds(
        article.tags(),
        needle,
    ) || any_name_holds(article.categories(), needle)
}

/// The positions, in rising order, of the articles that a search for
/// `query` shows.
pub fn search_results(articles: &Vec<Article>, query: &str) -> (out: Vec<usize>)
    ensures
        positions_view(out@) == searched(articles@, query@),
{
    let trimmed_query = trim(query);
    let lower = lowercase(trimmed_query.as_str());
    let needle = chars_of(lower.as_str());
    let mut out: Vec<usize> = Vec::new();
    if needle.len() == 0 {
        assert(positions_view(out@) =~= Seq::<int>::empty());
        return out;
    }
    let ghost flags = articles@.map_values(|a: Article| answers(a@, needle@));
    let mut i: usize = 0;
    assert(flags.take(0) =~= Seq::<bool>::empty());
    while i < articles.len() && out.len() < SEARCH_LIMIT
        invariant
            i <= articles.len(),
            flags == articles@.map_values(|a: Article| answers(a@, needle@)),
            positions_view(out@) == positions(flags.take(i as int)),
            out.len() <= SEARCH_LIMIT,
        decreases articles.len() - i,
    {
        proof {
            assert(flags.take(i + 1).drop_last() =~= flags.take(i as int));
            assert(flags.take(i + 1).last() == flags[i as int]);
        }
        let ghost before = out@;
        if answers_search(&articles[i], &needle) {
            out.push(i);
            assert(positions_view(out@) =~= positions_view(before).push(i as int));
        }
        i += 1;
    }
    proof {
        lemma_positions_prefix(flags, i as int);
        if i == articles.len() {
            assert(flags.take(i as int) =~= flags);
        }
        assert(positions_view(out@).len() == out@.len());
    }
    out
}

/// The position of the last article with the identifier `aid`.
pub open spec fn found_at(articles: Seq<Article>, aid: Seq<char>, at: int) -> bool {
    &&& 0 <= at < articles.len()
    &&& articles[at]@.aid == aid
    &&& forall|later: int| at < later < articles.len() ==> (#[trigger] articles[later])@.aid != aid
}

/// Looks an article up by its identifier. Where several articles have it,
/// the last of them is found.
pub fn find_article(articles: &Vec<Article>, aid: &str) -> (found: Option<usize>)
    ensures
        match found {
            Some(at) => found_at(articles@, aid@, at as int),
            None => forall|i: int| 0 <= i < articles@.len() ==> (#[trigger] articles@[i])@.aid
                != aid@,
        },
{
    let mut i: usize = articles.len();
    while i > 0
        invariant
            i <= articles.len(),
            forall|later: int|
                i <= later < articles@.len() ==> (#[trigger] articles@[later])@.aid != aid@,
        decreases i,
    {
        i -= 1;
        if same_text(articles[i].info().aid.as_str(), aid) {
            return Some(i);
        }
    }
    None
}

} // verus!
