//! Where the articles are found on the server and on the site.

use vstd::prelude::*;
use vstd::string::StringExecFns;
use crate::models::blog::ArticleInfo;
use crate::text::{same_text, texts};

verus! {

/// The path of the list of articles.
pub open spec fn list_path_text() -> Seq<char> {
    "/article/list"@
}

/// The path of the list of articles.
pub fn articles_list_path() -> (path: &'static str)
    ensures
        path@ == list_path_text(),
{
    "/article/list"
}

/// The path of the text of the article `aid`.
pub open spec fn content_path_text(aid: Seq<char>) -> Seq<char> {
    "/article/"@ + aid + "/content"@
}

/// The path of the text of the article `aid`.
pub fn article_content_path(aid: &str) -> (path: String)
    ensures
        path@ == content_path_text(aid@),
{
    let mut path = String::new();
    path.append("/article/");
    path.append(aid);
    path.append("/content");
    assert(path@ =~= content_path_text(aid@));
    path
}

/// The path of the comments on the article `aid`.
pub open spec fn comments_path_text(aid: Seq<char>) -> Seq<char> {
    "/article/"@ + aid + "/comment"@
}

/// The path of the comments on the article `aid`.
pub fn article_comments_path(aid: &str) -> (path: String)
    ensures
        path@ == comments_path_text(aid@),
{
    let mut path = String::new();
    path.append("/article/");
    path.append(aid);
    path.append("/comment");
    assert(path@ =~= comments_path_text(aid@));
    path
}

/// The address of a path on the server at `base`.
pub fn api_url(base: &str, path: &str) -> (url: String)
    ensures
        url@ == base@ + path@,
{
    let mut url = String::new();
    url.append(base);
    url.append(path);
    assert(url@ =~= base@ + path@);
    url
}

/// The page of the article `aid` on the site.
pub open spec fn article_page_text(aid: Seq<char>) -> Seq<char> {
    "/blog/"@ + aid
}

/// The page of the article `aid` on the site.
pub fn article_page(aid: &str) -> (page: String)
    ensures
        page@ == article_page_text(aid@),
{
    let mut page = String::new();
    page.append("/blog/");
    page.append(aid);
    assert(page@ =~= article_page_text(aid@));
    page
}

/// Looks up the first entry with the identifier `aid`.
pub fn find_info(infos: &Vec<ArticleInfo>, aid: &str) -> (found: Option<usize>)
    ensures
        match found {
            Some(at) => {
                &&& at < infos@.len()
                &&& infos@[at as int].aid@ == aid@
                &&& forall|earlier: int|
                    0 <= earlier < at ==> (#[trigger] infos@[earlier]).aid@ != aid@
            },
            None => forall|i: int| 0 <= i < infos@.len() ==> (#[trigger] infos@[i]).aid@ != aid@,
        },
{
    let mut i: usize = 0;
    while i < infos.len()
        invariant
            i <= infos.len(),
            forall|earlier: int| 0 <= earlier < i ==> (#[trigger] infos@[earlier]).aid@ != aid@,
        decreases infos.len() - i,
    {
        if same_text(infos[i].aid.as_str(), aid) {
            return Some(i);
        }
        i += 1;
    }
    None
}

/// The names `names` with `separator` between each two of them.
pub open spec fn joined(names: Seq<Seq<char>>, separator: Seq<char>) -> Seq<char>
    decreases names.len(),
{
    if names.len() == 0 {
        Seq::empty()
    } else if names.len() == 1 {
        names[0]
    } else {
        joined(names.drop_last(), separator) + separator + names.last()
    }
}

/// Writes names in a row with a separator between them.
pub fn join_names(names: &[String], separator: &str) -> (out: String)
    ensures
        out@ == joined(texts(names@), separator@),
{
    let ghost all = texts(names@);
    let mut out = String::new();
    let mut i: usize = 0;
    assert(all.take(0) =~= Seq::<Seq<char>>::empty());
    while i < names.len()
        invariant
            i <= names.len(),
            all == texts(names@),
            out@ == joined(all.take(i as int), separator@),
        decreases names.len() - i,
    {
        proof {
            assert(all.take(i + 1).drop_last() =~= all.take(i as int));
            assert(all.take(i + 1).last() == names@[i as int]@);
            assert(all.take(i + 1).len() == i + 1);
            if i == 0 {
                assert(all.take(1)[0] == names@[0]@);
                assert(Seq::<char>::empty() + names@[0]@ =~= names@[0]@);
            }
        }
        if i > 0 {
            out.append(separator);
        }
        out.append(names[i].as_str());
        i += 1;
    }
    assert(all.take(names.len() as int) =~= all);
    out
}

} // verus!
