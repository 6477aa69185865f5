//! The values that rendering a Markdown document produces.

use vstd::prelude::*;
use crate::text::texts;

verus! {

/// One heading of a document, as the table of contents lists it.
#[derive(Debug, Clone, PartialEq, Eq)]
pub struct Heading {
    /// The anchor identifier; empty until the heading is closed.
    pub id: String,
    /// The text of the heading.
    pub text: String,
    /// The level of the heading, from 1 to 6.
    pub level: u32,
}

/// A heading as a mathematical value.
pub struct HeadingView {
    pub id: Seq<char>,
    pub text: Seq<char>,
    pub level: nat,
}

impl View for Heading {
    type V = HeadingView;

    open spec fn view(&self) -> HeadingView {
        HeadingView { id: self.id@, text: self.text@, level: self.level as nat }
    }
}

/// A table of contents as a sequence of mathematical headings.
pub open spec fn toc_view(toc: Seq<Heading>) -> Seq<HeadingView> {
    toc.map_values(|h: Heading| h@)
}

/// The metadata block at the head of a document.
#[derive(Debug, Clone, PartialEq, Eq)]
pub struct FrontMatter {
    pub title: String,
    pub date: String,
    pub author: Option<String>,
    pub tags: Option<Vec<String>>,
    pub math_support: Option<bool>,
}

/// Front matter as a mathematical value.
pub struct FrontMatterView {
    pub title: Seq<char>,
    pub date: Seq<char>,
    pub author: Option<Seq<char>>,
    pub tags: Option<Seq<Seq<char>>>,
    pub math_support: Option<bool>,
}

impl View for FrontMatter {
    type V = FrontMatterView;

    open spec fn view(&self) -> FrontMatterView {
        FrontMatterView {
            title: self.title@,
            date: self.date@,
            author: match self.author {
                Some(a) => Some(a@),
                None => None,
            },
            tags: match self.tags {
                Some(t) => Some(texts(t@)),
                None => None,
            },
            math_support: self.math_support,
        }
    }
}

/// A rendered document: its metadata if it has any, its HTML and its table
/// of contents in document order.
#[derive(Debug, Clone, PartialEq, Eq)]
pub struct MarkdownContent {
    pub front_matter: Option<FrontMatter>,
    pub html_content: String,
    pub toc: Vec<Heading>,
}

/// A rendered document as a mathematical value.
pub struct MarkdownContentView {
    pub front_matter: Option<FrontMatterView>,
    pub html_content: Seq<char>,
    pub toc: Seq<HeadingView>,
}

impl View for MarkdownContent {
    type V = MarkdownContentView;

    open spec fn view(&self) -> MarkdownContentView {
        MarkdownContentView {
            front_matter: match self.front_matter {
                Some(f) => Some(f@),
                None => None,
            },
            html_content: self.html_content@,
            toc: toc_view(self.toc@),
        }
    }
}

} // verus!
