//! Splitting a document into its metadata block and its body.
//!
//! A document has front matter when it begins with a line `---`, and a later
//! line `---` closes the block. The block ends at the first such line; the
//! body is everything after it.

use vstd::prelude::*;
use crate::text::{chars_of, string_of};

verus! {

/// The line that opens the metadata block, with its line break.
pub open spec fn opening() -> Seq<char> {
    seq!['-', '-', '-', '\n']
}

/// The line that closes the metadata block, with the line break before it
/// and its own.
pub open spec fn closing() -> Seq<char> {
    seq!['\n', '-', '-', '-', '\n']
}

/// Whether `text` begins with the opening line.
pub open spec fn opens(text: Seq<char>) -> bool {
    text.len() >= 4 && text.subrange(0, 4) == opening()
}

/// Whether the closing line stands in `text` at position `at`.
pub open spec fn closes_at(text: Seq<char>, at: int) -> bool {
    0 <= at && at + 5 <= text.len() && text.subrange(at, at + 5) == closing()
}

/// Whether the metadata block of `text` ends at position `at`: `text` opens,
/// the closing line stands at `at`, and at no earlier position after the
/// opening line.
pub open spec fn block_ends_at(text: Seq<char>, at: int) -> bool {
    &&& opens(text)
    &&& 4 <= at
    &&& closes_at(text, at)
    &&& forall|earlier: int| 4 <= earlier < at ==> !closes_at(text, earlier)
}

/// Whether `text` has front matter.
pub open spec fn has_front_matter(text: Seq<char>) -> bool {
    exists|at: int| block_ends_at(text, at)
}

/// The position at which the metadata block of `text` ends.
pub open spec fn block_end(text: Seq<char>) -> int {
    choose|at: int| block_ends_at(text, at)
}

/// The metadata block and the body of `text`, if it has front matter.
pub open spec fn split_of(text: Seq<char>) -> Option<(Seq<char>, Seq<char>)> {
    if has_front_matter(text) {
        let at = block_end(text);
        Some((text.subrange(4, at), text.subrange(at + 5, text.len() as int)))
    } else {
        None
    }
}

/// A pair of strings as a pair of texts.
pub open spec fn split_view(split: Option<(String, String)>) -> Option<(Seq<char>, Seq<char>)> {
    match split {
        Some((block, body)) => Some((block@, body@)),
        None => None,
    }
}

/// The metadata block of a document ends at one position only.
pub proof fn lemma_block_end_unique(text: Seq<char>, a: int, b: int)
    requires
        block_ends_at(text, a),
        block_ends_at(text, b),
    ensures
        a == b,
{
}

/// A document that does not begin with the opening line has no front matter.
pub proof fn lemma_no_opening_no_front_matter(text: Seq<char>)
    requires
        !opens(text),
    ensures
        split_of(text) is None,
{
}

/// Put together again, the opening line, the block, the closing line and the
/// body are the document.
pub proof fn lemma_split_rebuilds(text: Seq<char>)
    requires
        has_front_matter(text),
    ensures
        ({
            let (block, body) = split_of(text).unwrap();
            opening() + block + closing() + body == text
        }),
{
    let at = block_end(text);
    assert(opening() + text.subrange(4, at) + closing() + text.subrange(
        at + 5,
        text.len() as int,
    ) =~= text) by {
        assert(text.subrange(0, 4) == opening());
        assert(text.subrange(at, at + 5) == closing());
        let whole = opening() + text.subrange(4, at) + closing() + text.subrange(
            at + 5,
            text.len() as int,
        );
        assert(whole.len() == text.len());
        assert forall|i: int| 0 <= i < text.len() implies whole[i] == text[i] by {
            if i < 4 {
                assert(text.subrange(0, 4)[i] == text[i]);
            } else if i < at {
            } else if i < at + 5 {
                assert(text.subrange(at, at + 5)[i - at] == text[i]);
            } else {
            }
        }
    }
}

fn opens_here(chars: &Vec<char>) -> (yes: bool)
    ensures
        yes == opens(chars@),
{
    if chars.len() < 4 {
        return false;
    }
    let yes = chars[0] == '-' && chars[1] == '-' && chars[2] == '-' && chars[3] == '\n';
    proof {
        let head = chars@.subrange(0, 4);
        if yes {
            assert(head =~= opening());
        } else {
            assert(head[0] == chars@[0] && head[1] == chars@[1] && head[2] == chars@[2] && head[3]
                == chars@[3]);
        }
    }
    yes
}

fn closes_here(chars: &Vec<char>, at: usize) -> (yes: bool)
    requires
        at + 5 <= chars.len(),
    ensures
        yes == closes_at(chars@, at as int),
{
    let yes = chars[at] == '\n' && chars[at + 1] == '-' && chars[at + 2] == '-' && chars[at + 3]
        == '-' && chars[at + 4] == '\n';
    proof {
        let part = chars@.subrange(at as int, at + 5);
        if yes {
            assert(part =~= closing());
        } else {
            assert(part[0] == chars@[at as int] && part[1] == chars@[at + 1] && part[2] == chars@[at
                + 2] && part[3] == chars@[at + 3] && part[4] == chars@[at + 4]);
        }
    }
    yes
}

/// Splits a document into its metadata block and its body. Returns `None`
/// when the document does not begin with the opening line or no closing
/// line follows.
pub fn split_front_matter(content: &str) -> (split: Option<(String, String)>)
    ensures
        split_view(split) == split_of(content@),
{
    let chars = chars_of(content);
    if !opens_here(&chars) {
        return None;
    }
    let mut at: usize = 4;
    while chars.len() - at >= 5
        invariant
            4 <= at <= chars.len(),
            chars@ == content@,
            opens(chars@),
            forall|earlier: int| 4 <= earlier < at ==> !closes_at(chars@, earlier),
        decreases chars.len() - at,
    {
        if closes_here(&chars, at) {
            let block = string_of(&chars, 4, at);
            let body = string_of(&chars, at + 5, chars.len());
            proof {
                assert(block_ends_at(content@, at as int));
                lemma_block_end_unique(content@, at as int, block_end(content@));
            }
            return Some((block, body));
        }
        at += 1;
    }
    assert(!has_front_matter(content@));
    None
}

} // verus!
