//! Decoding the metadata block of a document.
//!
//! The block is YAML. serde_yaml parses it into a mapping, and the entries
//! of the mapping are read here: the texts `title` and `date`, and
//! optionally `author`, `tags` and `math_support`. Other keys are ignored.

use vstd::prelude::*;
use serde_yaml::Value;
use crate::models::markdown::{FrontMatter, FrontMatterView};
use crate::text::{option_text, same_text, texts};

verus! {

/// What the decoder reads of the value of one entry.
#[derive(Debug, Clone, PartialEq, Eq)]
pub enum YamlValue {
    Null,
    Bool(bool),
    Text(String),
    /// A sequence; each item that is a text with its text, each other item
    /// as `None`.
    List(Vec<Option<String>>),
    /// A number, a mapping or a tagged value.
    Other,
}

/// One entry of a YAML mapping.
#[derive(Debug, Clone, PartialEq, Eq)]
pub struct YamlEntry {
    /// The key where it is a text, `None` where it is anything else.
    pub key: Option<String>,
    pub value: YamlValue,
}

/// A value as a mathematical value.
pub enum YamlValueView {
    Null,
    Bool(bool),
    Text(Seq<char>),
    List(Seq<Option<Seq<char>>>),
    Other,
}

/// An entry as a mathematical value.
pub struct YamlEntryView {
    pub key: Option<Seq<char>>,
    pub value: YamlValueView,
}

/// A list of optional strings as a sequence of optional texts.
pub open spec fn items_view(items: Seq<Option<String>>) -> Seq<Option<Seq<char>>> {
    items.map_values(|item: Option<String>| option_text(item))
}

impl View for YamlValue {
    type V = YamlValueView;

    open spec fn view(&self) -> YamlValueView {
        match self {
            YamlValue::Null => YamlValueView::Null,
            YamlValue::Bool(flag) => YamlValueView::Bool(*flag),
            YamlValue::Text(text) => YamlValueView::Text(text@),
            YamlValue::List(items) => YamlValueView::List(items_view(items@)),
            YamlValue::Other => YamlValueView::Other,
        }
    }
}

impl View for YamlEntry {
    type V = YamlEntryView;

    open spec fn view(&self) -> YamlEntryView {
        YamlEntryView { key: option_text(self.key), value: self.value@ }
    }
}

/// A list of entries as a sequence of mathematical entries.
pub open spec fn entries_view(entries: Seq<YamlEntry>) -> Seq<YamlEntryView> {
    entries.map_values(|e: YamlEntry| e@)
}

/// The entries of the mapping that `text` is as one YAML document, in the
/// order of the document; `None` where `text` is no such document.
pub uninterp spec fn yaml_mapping(text: Seq<char>) -> Option<Seq<YamlEntryView>>;

/// Parses a text as a YAML mapping.
///
/// Trusted: calls `serde_yaml::from_str` for a `serde_yaml::Mapping` and
/// walks it with `Mapping::iter`, which goes in the order of the document.
/// Of each entry it keeps the key where that is `Value::String`, and of the
/// value what its variant holds. Whether the call succeeds, and with which
/// entries, depends on the text alone; the contract gives the outcome its
/// name.
#[verifier::external_body]
pub(crate) fn parse_yaml(text: &str) -> (entries: Option<Vec<YamlEntry>>)
    ensures
        match entries {
            Some(list) => yaml_mapping(text@) == Some(entries_view(list@)),
            None => yaml_mapping(text@) is None,
        },
{
    let mapping = serde_yaml::from_str::<serde_yaml::Mapping>(text).ok()?;
    Some(mapping.iter().map(|(key, value)| YamlEntry {
        key: if let Value::String(name) = key { Some(name.clone()) } else { None },
        value: match value {
            Value::Null => YamlValue::Null,
            Value::Bool(flag) => YamlValue::Bool(*flag),
            Value::String(text) => YamlValue::Text(text.clone()),
            Value::Sequence(items) => YamlValue::List(items.iter().map(|item|
                if let Value::String(text) = item { Some(text.clone()) } else { None }).collect()),
            _ => YamlValue::Other,
        },
    }).collect())
}

/// The value of the first entry of `entries` whose key is the text `key`.
pub open spec fn field(entries: Seq<YamlEntryView>, key: Seq<char>) -> Option<YamlValueView>
    decreases entries.len(),
{
    if entries.len() == 0 {
        None
    } else if entries[0].key == Some(key) {
        Some(entries[0].value)
    } else {
        field(entries.drop_first(), key)
    }
}

/// A field that must be a text.
pub open spec fn required_text(value: Option<YamlValueView>) -> Option<Seq<char>> {
    match value {
        Some(YamlValueView::Text(text)) => Some(text),
        _ => None,
    }
}

/// A field that may be left out or null, and is a text otherwise. The outer
/// `None` stands for a value of another shape.
pub open spec fn optional_text(value: Option<YamlValueView>) -> Option<Option<Seq<char>>> {
    match value {
        None => Some(None),
        Some(YamlValueView::Null) => Some(None),
        Some(YamlValueView::Text(text)) => Some(Some(text)),
        _ => None,
    }
}

/// A field that may be left out or null, and is a boolean otherwise.
pub open spec fn optional_flag(value: Option<YamlValueView>) -> Option<Option<bool>> {
    match value {
        None => Some(None),
        Some(YamlValueView::Null) => Some(None),
        Some(YamlValueView::Bool(flag)) => Some(Some(flag)),
        _ => None,
    }
}

/// Whether every item of `items` is a text.
pub open spec fn all_texts(items: Seq<Option<Seq<char>>>) -> bool {
    forall|i: int| 0 <= i < items.len() ==> #[trigger] items[i] is Some
}

/// The texts of a sequence whose items are all texts.
pub open spec fn item_texts(items: Seq<Option<Seq<char>>>) -> Seq<Seq<char>> {
    Seq::new(items.len(), |i: int| items[i].unwrap())
}

/// A field that may be left out or null, and is a sequence of texts
/// otherwise.
pub open spec fn optional_list(value: Option<YamlValueView>) -> Option<Option<Seq<Seq<char>>>> {
    match value {
        None => Some(None),
        Some(YamlValueView::Null) => Some(None),
        Some(YamlValueView::List(items)) => if all_texts(items) {
            Some(Some(item_texts(items)))
        } else {
            None
        },
        _ => None,
    }
}

/// The front matter that the entries of a mapping hold: `title` and `date`
/// are texts, and `author`, `tags` and `math_support`, where they are
/// present and not null, are a text, a sequence of texts and a boolean.
/// Entries with other keys are not looked at. Where a required field is
/// missing or a field has another shape, the entries hold none.
pub open spec fn decoded(entries: Seq<YamlEntryView>) -> Option<FrontMatterView> {
    let title = required_text(field(entries, "title"@));
    let date = required_text(field(entries, "date"@));
    let author = optional_text(field(entries, "author"@));
    let tags = optional_list(field(entries, "tags"@));
    let math_support = optional_flag(field(entries, "math_support"@));
    if title is Some && date is Some && author is Some && tags is Some && math_support is Some {
        Some(
            FrontMatterView {
                title: title.unwrap(),
                date: date.unwrap(),
                author: author.unwrap(),
                tags: tags.unwrap(),
                math_support: math_support.unwrap(),
            },
        )
    } else {
        None
    }
}

/// The front matter that a metadata block holds: that of its entries where
/// it is a YAML mapping, none otherwise.
pub open spec fn decoded_block(block: Seq<char>) -> Option<FrontMatterView> {
    match yaml_mapping(block) {
        Some(entries) => decoded(entries),
        None => None,
    }
}

/// Optional front matter as a mathematical value.
pub open spec fn front_matter_view(front_matter: Option<FrontMatter>) -> Option<FrontMatterView> {
    match front_matter {
        Some(f) => Some(f@),
        None => None,
    }
}

fn find_field<'a>(entries: &'a Vec<YamlEntry>, key: &str) -> (value: Option<&'a YamlValue>)
    ensures
        match value {
            Some(found) => field(entries_view(entries@), key@) == Some(found@),
            None => field(entries_view(entries@), key@) is None,
        },
{
    let ghost all = entries_view(entries@);
    let mut i: usize = 0;
    assert(all.skip(0) =~= all);
    while i < entries.len()
        invariant
            i <= entries.len(),
            all == entries_view(entries@),
            field(all, key@) == field(all.skip(i as int), key@),
        decreases entries.len() - i,
    {
        proof {
            assert(all.skip(i as int)[0] == entries@[i as int]@);
            assert(all.skip(i as int).drop_first() =~= all.skip(i + 1));
        }
        if let Some(name) = &entries[i].key {
            if same_text(name.as_str(), key) {
                return Some(&entries[i].value);
            }
        }
        i += 1;
    }
    assert(all.skip(entries.len() as int).len() == 0);
    None
}

fn read_list(items: &Vec<Option<String>>) -> (list: Option<Vec<String>>)
    ensures
        match list {
            Some(tags) => all_texts(items_view(items@)) && texts(tags@) == item_texts(
                items_view(items@),
            ),
            None => !all_texts(items_view(items@)),
        },
{
    let ghost shown = items_view(items@);
    let mut tags: Vec<String> = Vec::new();
    let mut i: usize = 0;
    while i < items.len()
        invariant
            i <= items.len(),
            tags.len() == i,
            shown == items_view(items@),
            forall|j: int| 0 <= j < i ==> #[trigger] shown[j] is Some,
            forall|j: int| 0 <= j < i ==> (#[trigger] tags@[j])@ == shown[j].unwrap(),
        decreases items.len() - i,
    {
        match &items[i] {
            Some(text) => {
                tags.push(text.clone());
            },
            None => {
                assert(shown[i as int] is None);
                return None;
            },
        }
        i += 1;
    }
    assert(texts(tags@) =~= item_texts(shown));
    Some(tags)
}

/// Reads the front matter out of the entries of a mapping.
pub fn front_matter_from_entries(entries: &Vec<YamlEntry>) -> (front_matter: Option<FrontMatter>)
    ensures
        front_matter_view(front_matter) == decoded(entries_view(entries@)),
{
    let title = match find_field(entries, "title") {
        Some(YamlValue::Text(text)) => text.clone(),
        _ => {
            return None;
        },
    };
    let date = match find_field(entries, "date") {
        Some(YamlValue::Text(text)) => text.clone(),
        _ => {
            return None;
        },
    };
    let author = match find_field(entries, "author") {
        None => None,
        Some(YamlValue::Null) => None,
        Some(YamlValue::Text(text)) => Some(text.clone()),
        _ => {
            return None;
        },
    };
    let tags = match find_field(entries, "tags") {
        None => None,
        Some(YamlValue::Null) => None,
        Some(YamlValue::List(items)) => match read_list(items) {
            Some(list) => Some(list),
            None => {
                return None;
            },
        },
        _ => {
            return None;
        },
    };
    let math_support = match find_field(entries, "math_support") {
        None => None,
        Some(YamlValue::Null) => None,
        Some(YamlValue::Bool(flag)) => Some(*flag),
        _ => {
            return None;
        },
    };
    Some(FrontMatter { title, date, author, tags, math_support })
}

/// Decodes a metadata block. Returns `None` where the block is not a YAML
/// mapping, or the mapping does not hold front matter.
pub fn decode_front_matter(block: &str) -> (front_matter: Option<FrontMatter>)
    ensures
        front_matter_view(front_matter) == decoded_block(block@),
{
    match parse_yaml(block) {
        Some(entries) => front_matter_from_entries(&entries),
        None => None,
    }
}

} // verus!
