//! Anchor identifiers for headings: the base slug of a heading's text and the
//! counter that keeps identifiers apart when two headings share a slug.

use vstd::prelude::*;
use crate::text::{
    chars_of,
    lowercase,
    lowercase_of,
    decimal,
    lemma_decimal_injective,
    lemma_decimal_len,
    push_char,
    push_decimal,
    same_text,
};

verus! {

/// Whether `char::is_alphanumeric` holds of a character.
pub uninterp spec fn alphanumeric(c: char) -> bool;

/// Tests a character with `char::is_alphanumeric`.
///
/// Trusted: the result depends on the character alone; the contract only
/// gives that result its name.
#[verifier::external_body]
fn is_alphanumeric(c: char) -> (yes: bool)
    ensures
        yes == alphanumeric(c),
{
    c.is_alphanumeric()
}

/// A space becomes a hyphen; every other character stays.
pub open spec fn hyphenated(c: char) -> char {
    if c == ' ' {
        '-'
    } else {
        c
    }
}

/// The characters a slug keeps: alphanumeric ones and the hyphen.
pub open spec fn kept_in_slug(c: char) -> bool {
    alphanumeric(c) || c == '-'
}

/// The slug of an already lowercased text: spaces turned into hyphens, then
/// every character dropped that is neither alphanumeric nor a hyphen.
pub open spec fn slug_of_lowercase(lower: Seq<char>) -> Seq<char> {
    lower.map_values(|c: char| hyphenated(c)).filter(|c: char| kept_in_slug(c))
}

/// The base slug of a heading's text.
pub open spec fn base_slug(text: Seq<char>) -> Seq<char> {
    slug_of_lowercase(lowercase_of(text))
}

/// The slug of a lowercased text of which `alnum` tells, character by
/// character, whether it is alphanumeric: spaces turned into hyphens, then
/// every character dropped that is neither alphanumeric nor a hyphen.
pub open spec fn slug_with(lower: Seq<char>, alnum: Seq<bool>) -> Seq<char>
    recommends
        lower.len() == alnum.len(),
    decreases lower.len(),
{
    if lower.len() == 0 {
        Seq::empty()
    } else {
        let rest = slug_with(lower.drop_last(), alnum.drop_last());
        let c = hyphenated(lower.last());
        if c == '-' || alnum.last() {
            rest.push(c)
        } else {
            rest
        }
    }
}

/// For each character of a text, whether it is alphanumeric.
pub open spec fn alphanumeric_flags(text: Seq<char>) -> Seq<bool> {
    text.map_values(|c: char| alphanumeric(c))
}

/// With the flags that `char::is_alphanumeric` gives, `slug_with` is the
/// slug of the lowercased text.
pub proof fn lemma_slug_with_flags(lower: Seq<char>)
    ensures
        slug_with(lower, alphanumeric_flags(lower)) == slug_of_lowercase(lower),
    decreases lower.len(),
{
    reveal(Seq::filter);
    let mapped = lower.map_values(|c: char| hyphenated(c));
    if lower.len() == 0 {
        assert(mapped =~= Seq::<char>::empty());
    } else {
        lemma_slug_with_flags(lower.drop_last());
        assert(mapped.drop_last() =~= lower.drop_last().map_values(|c: char| hyphenated(c)));
        assert(alphanumeric_flags(lower).drop_last() =~= alphanumeric_flags(lower.drop_last()));
        assert(mapped.last() == hyphenated(lower.last()));
    }
}

/// Computes the slug of a lowercased text from its characters and, for each
/// of them, whether it is alphanumeric.
pub fn slug_from_flags(lower: &Vec<char>, alnum: &Vec<bool>) -> (slug: String)
    requires
        lower.len() == alnum.len(),
    ensures
        slug@ == slug_with(lower@, alnum@),
{
    let mut slug = String::new();
    let mut i: usize = 0;
    assert(lower@.take(0) =~= Seq::<char>::empty());
    while i < lower.len()
        invariant
            i <= lower.len(),
            lower.len() == alnum.len(),
            slug@ == slug_with(lower@.take(i as int), alnum@.take(i as int)),
        decreases lower.len() - i,
    {
        let c = if lower[i] == ' ' {
            '-'
        } else {
            lower[i]
        };
        proof {
            assert(lower@.take(i + 1).drop_last() =~= lower@.take(i as int));
            assert(alnum@.take(i + 1).drop_last() =~= alnum@.take(i as int));
            assert(lower@.take(i + 1).last() == lower@[i as int]);
            assert(alnum@.take(i + 1).last() == alnum@[i as int]);
        }
        if c == '-' || alnum[i] {
            push_char(&mut slug, c);
        }
        i += 1;
    }
    proof {
        assert(lower@.take(lower.len() as int) =~= lower@);
        assert(alnum@.take(lower.len() as int) =~= alnum@);
    }
    slug
}

/// Computes the slug of an already lowercased text.
pub fn slug_from_lowercase(lower: &str) -> (slug: String)
    ensures
        slug@ == slug_of_lowercase(lower@),
{
    let chars = chars_of(lower);
    let mut alnum: Vec<bool> = Vec::new();
    let mut i: usize = 0;
    while i < chars.len()
        invariant
            i <= chars.len(),
            alnum@.len() == i,
            forall|j: int| 0 <= j < i ==> alnum@[j] == alphanumeric(#[trigger] chars@[j]),
        decreases chars.len() - i,
    {
        alnum.push(is_alphanumeric(chars[i]));
        i += 1;
    }
    proof {
        assert(alnum@ =~= alphanumeric_flags(chars@));
        lemma_slug_with_flags(chars@);
    }
    slug_from_flags(&chars, &alnum)
}

/// Computes the base slug of a heading's text: lowercase it, turn spaces into
/// hyphens, and keep only alphanumeric characters and hyphens.
pub fn slugify(text: &str) -> (slug: String)
    ensures
        slug@ == base_slug(text@),
{
    let lower = lowercase(text);
    slug_from_lowercase(lower.as_str())
}

/// How many headings had the slug `slug` so far, by the counts `counts`.
pub open spec fn occurrences(counts: Map<Seq<char>, nat>, slug: Seq<char>) -> nat {
    if counts.contains_key(slug) {
        counts[slug]
    } else {
        0
    }
}

/// The identifier of a heading with base slug `base` that `earlier` headings
/// of the same document shared before it: the slug itself for the first, and
/// the slug, a hyphen and `earlier` in decimal for the others.
pub open spec fn unique_id(base: Seq<char>, earlier: nat) -> Seq<char> {
    if earlier == 0 {
        base
    } else {
        base + seq!['-'] + decimal(earlier)
    }
}

/// Two headings with the same base slug never get the same identifier.
pub proof fn lemma_unique_ids_differ(base: Seq<char>, m: nat, n: nat)
    requires
        m != n,
    ensures
        unique_id(base, m) != unique_id(base, n),
{
    lemma_decimal_len(m);
    lemma_decimal_len(n);
    if m != 0 && n != 0 {
        let head = base + seq!['-'];
        let a = head + decimal(m);
        let b = head + decimal(n);
        if a == b {
            assert(a.subrange(head.len() as int, a.len() as int) =~= decimal(m));
            assert(b.subrange(head.len() as int, b.len() as int) =~= decimal(n));
            lemma_decimal_injective(m, n);
        }
    } else if m == 0 {
        assert(unique_id(base, n).len() > base.len());
    } else {
        assert(unique_id(base, m).len() > base.len());
    }
}

/// Counts, per base slug, the headings seen so far in one document.
pub struct SlugCounter {
    entries: Vec<(String, u64)>,
}

impl View for SlugCounter {
    type V = Map<Seq<char>, nat>;

    closed spec fn view(&self) -> Map<Seq<char>, nat> {
        Map::new(
            |slug: Seq<char>| self.holds(slug),
            |slug: Seq<char>| self.entries@[self.position(slug)].1 as nat,
        )
    }
}

impl SlugCounter {
    spec fn holds(&self, slug: Seq<char>) -> bool {
        exists|i: int| 0 <= i < self.entries@.len() && (#[trigger] self.entries@[i]).0@ == slug
    }

    spec fn position(&self, slug: Seq<char>) -> int {
        choose|i: int| 0 <= i < self.entries@.len() && (#[trigger] self.entries@[i]).0@ == slug
    }

    /// No slug is recorded twice, and a recorded slug was seen at least once.
    pub closed spec fn well_formed(&self) -> bool {
        &&& forall|i: int, j: int|
            0 <= i < j < self.entries@.len() ==> (#[trigger] self.entries@[i]).0@ != (
            #[trigger] self.entries@[j]).0@
        &&& forall|i: int| 0 <= i < self.entries@.len() ==> (#[trigger] self.entries@[i]).1 >= 1
    }

    /// A counter that has seen no heading.
    pub fn new() -> (counter: SlugCounter)
        ensures
            counter.well_formed(),
            counter@ == Map::<Seq<char>, nat>::empty(),
    {
        let counter = SlugCounter { entries: Vec::new() };
        assert(counter@ =~= Map::<Seq<char>, nat>::empty());
        counter
    }

    /// How many headings with the slug `slug` were seen so far.
    pub fn seen(&self, slug: &str) -> (n: u64)
        requires
            self.well_formed(),
        ensures
            n == occurrences(self@, slug@),
    {
        let mut i: usize = 0;
        while i < self.entries.len()
            invariant
                self.well_formed(),
                i <= self.entries.len(),
                forall|j: int| 0 <= j < i ==> (#[trigger] self.entries@[j]).0@ != slug@,
            decreases self.entries.len() - i,
        {
            if same_text(self.entries[i].0.as_str(), slug) {
                assert(self.entries@[i as int].0@ == slug@);
                assert(self.position(slug@) == i);
                return self.entries[i].1;
            }
            i += 1;
        }
        assert(!self.holds(slug@));
        0
    }

    /// Records one more heading with base slug `base` and returns the
    /// identifier that keeps it apart from the earlier ones.
    pub fn assign(&mut self, base: String) -> (id: String)
        requires
            old(self).well_formed(),
            occurrences(old(self)@, base@) < u64::MAX,
        ensures
            final(self).well_formed(),
            final(self)@ == old(self)@.insert(base@, occurrences(old(self)@, base@) + 1),
            id@ == unique_id(base@, occurrences(old(self)@, base@)),
    {
        let ghost before = *self;
        let mut i: usize = 0;
        let mut found = false;
        while i < self.entries.len() && !found
            invariant
                i <= self.entries.len(),
                *self == before,
                forall|j: int| 0 <= j < i ==> (#[trigger] self.entries@[j]).0@ != base@,
                found ==> i < self.entries.len() && self.entries@[i as int].0@ == base@,
            decreases self.entries.len() - i + (if found { 0int } else { 1int }),
        {
            if same_text(self.entries[i].0.as_str(), base.as_str()) {
                found = true;
            } else {
                i += 1;
            }
        }
        if found {
            assert(before.entries@[i as int].0@ == base@);
            assert(before.position(base@) == i);
            let earlier = self.entries[i].1;
            let mut id = base.clone();
            self.entries.set(i, (base, earlier + 1));
            push_char(&mut id, '-');
            push_decimal(&mut id, earlier);
            proof {
                let after = *self;
                assert forall|slug: Seq<char>| after.holds(slug) == (before.holds(slug) || slug
                    == base@) by {
                    if before.holds(slug) {
                        assert(after.entries@[before.position(slug)].0@ == slug);
                    }
                    if after.holds(slug) {
                        assert(before.entries@[after.position(slug)].0@ == slug);
                    }
                }
                assert(after@ =~= before@.insert(base@, occurrences(before@, base@) + 1));
                assert(id@ =~= unique_id(base@, earlier as nat));
            }
            id
        } else {
            assert(!before.holds(base@));
            let id = base.clone();
            self.entries.push((base, 1));
            proof {
                let after = *self;
                assert(after.entries@[i as int].0@ == base@);
                assert forall|slug: Seq<char>| after.holds(slug) == (before.holds(slug) || slug
                    == base@) by {
                    if before.holds(slug) {
                        assert(after.entries@[before.position(slug)].0@ == slug);
                    }
                    if after.holds(slug) && slug != base@ {
                        assert(before.entries@[after.position(slug)].0@ == slug);
                    }
                }
                assert(after@ =~= before@.insert(base@, occurrences(before@, base@) + 1));
            }
            id
        }
    }
}

} // verus!
