//! Articles, comments, tags and categories.

use vstd::prelude::*;
use crate::text::{option_text, texts};
use crate::utils::{format_date_cn, formatted_cn};

verus! {

/// An instant: the seconds since the start of 1970 in UTC, and the
/// nanoseconds since the last whole second.
#[derive(Debug, Clone, Copy, PartialEq, Eq)]
pub struct Timestamp {
    pub secs: i64,
    pub nanos: u32,
}

/// What the list of articles shows of one article.
#[derive(Debug, Clone, PartialEq, Eq)]
pub struct ArticleInfo {
    pub aid: String,
    pub title: String,
    pub summary: String,
    pub secret: Option<String>,
    pub tags: Vec<String>,
    pub categories: Vec<String>,
    pub created_at: Timestamp,
    pub updated_at: Timestamp,
}

/// A comment on an article.
#[derive(Debug, Clone, PartialEq, Eq)]
pub struct Comment {
    pub cid: String,
    pub uid: String,
    pub content: String,
    pub created_at: Timestamp,
    pub updated_at: Timestamp,
}

/// An article with its text and its comments.
#[derive(Debug, Clone, PartialEq, Eq)]
pub struct Article {
    info: ArticleInfo,
    content: String,
    comments: Vec<Comment>,
}

/// What searching and filtering read of an article.
pub struct ArticleView {
    pub aid: Seq<char>,
    pub title: Seq<char>,
    pub tags: Seq<Seq<char>>,
    pub categories: Seq<Seq<char>>,
    pub content: Seq<char>,
}

impl View for Article {
    type V = ArticleView;

    closed spec fn view(&self) -> ArticleView {
        ArticleView {
            aid: self.info.aid@,
            title: self.info.title@,
            tags: texts(self.info.tags@),
            categories: texts(self.info.categories@),
            content: self.content@,
        }
    }
}

impl Article {
    /// The article's entry in the list of articles.
    pub closed spec fn info_of(&self) -> ArticleInfo {
        self.info
    }

    /// The article's comments.
    pub closed spec fn comments_of(&self) -> Seq<Comment> {
        self.comments@
    }

    /// Puts an article together.
    pub fn new(info: ArticleInfo, content: &str, comments: Vec<Comment>) -> (article: Article)
        ensures
            article.info_of() == info,
            article.comments_of() == comments@,
            article@.aid == info.aid@,
            article@.title == info.title@,
            article@.tags == texts(info.tags@),
            article@.categories == texts(info.categories@),
            article@.content == content@,
    {
        Article { info, content: content.to_owned(), comments }
    }

    /// The article's entry in the list of articles.
    pub fn info(&self) -> (info: &ArticleInfo)
        ensures
            *info == self.info_of(),
            info.aid@ == self@.aid,
            info.title@ == self@.title,
            texts(info.tags@) == self@.tags,
            texts(info.categories@) == self@.categories,
    {
        &self.info
    }

    /// The article's identifier.
    pub fn aid(&self) -> (aid: String)
        ensures
            aid@ == self@.aid,
    {
        self.info.aid.clone()
    }

    /// The article's title.
    pub fn title(&self) -> (title: &str)
        ensures
            title@ == self@.title,
    {
        self.info.title.as_str()
    }

    /// The article's tags.
    pub fn tags(&self) -> (tags: &[String])
        ensures
            texts(tags@) == self@.tags,
    {
        self.info.tags.as_slice()
    }

    /// The article's categories.
    pub fn categories(&self) -> (categories: &[String])
        ensures
            texts(categories@) == self@.categories,
    {
        self.info.categories.as_slice()
    }

    /// The article's text.
    pub fn content(&self) -> (content: &str)
        ensures
            content@ == self@.content,
    {
        self.content.as_str()
    }

    /// The article's comments.
    pub fn comments(&self) -> (comments: &[Comment])
        ensures
            comments@ == self.comments_of(),
    {
        self.comments.as_slice()
    }

    /// When the article was written, as `format_date_cn` writes it.
    pub fn created_at(&self) -> (text: Option<String>)
        ensures
            option_text(text) == formatted_cn(self.info_of().created_at),
    {
        format_date_cn(self.info.created_at)
    }

    /// When the article was last changed, as `format_date_cn` writes it.
    pub fn updated_at(&self) -> (text: Option<String>)
        ensures
            option_text(text) == formatted_cn(self.info_of().updated_at),
    {
        format_date_cn(self.info.updated_at)
    }
}

/// What is sent to create an article.
#[derive(Debug, Clone, PartialEq, Eq)]
pub struct ArticleCreateRequest {
    pub title: String,
    pub tags: Vec<String>,
    pub categories: Vec<String>,
    pub summary: String,
    pub content: String,
    pub secret: Option<String>,
}

/// What is sent to change an article; a field left out stays as it is.
#[derive(Debug, Clone, PartialEq, Eq)]
pub struct ArticleModifyRequest {
    pub aid: String,
    pub title: Option<String>,
    pub tags: Option<Vec<String>>,
    pub categories: Option<Vec<String>>,
    pub summary: Option<String>,
    pub content: Option<String>,
    pub secret: Option<String>,
}

/// What is sent to comment on an article.
#[derive(Debug, Clone, PartialEq, Eq)]
pub struct CommentCreateRequest {
    pub aid: String,
    pub uid: String,
    pub content: String,
}

/// What is sent to change a comment.
#[derive(Debug, Clone, PartialEq, Eq)]
pub struct CommentModifyRequest {
    pub cid: String,
    pub content: String,
}

/// A tag with the number of articles that carry it.
#[derive(Debug, Clone, PartialEq, Eq)]
pub struct Tag {
    pub name: String,
    pub count: i32,
}

/// A category with the number of articles in it.
#[derive(Debug, Clone, PartialEq, Eq)]
pub struct Category {
    pub name: String,
    pub count: i32,
}

} // verus!
