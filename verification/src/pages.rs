//! Paging through the list of articles.

use vstd::prelude::*;

verus! {

/// The number of pages that `articles` articles fill with `items_per_page`
/// on a page; an empty list still has one page.
pub open spec fn pages_for(articles: int, items_per_page: int) -> int {
    articles / items_per_page + (if articles % items_per_page > 0 {
        1int
    } else {
        0int
    }) + (if articles == 0 {
        1int
    } else {
        0int
    })
}

/// Counts the pages of the list.
pub fn total_pages(articles: usize, items_per_page: usize) -> (pages: usize)
    requires
        items_per_page > 0,
    ensures
        pages == pages_for(articles as int, items_per_page as int),
        pages >= 1,
{
    let full = articles / items_per_page;
    let rest = articles % items_per_page;
    proof {
        assert(articles == full * items_per_page + rest) by (nonlinear_arith)
            requires
                items_per_page > 0,
                full == articles / items_per_page,
                rest == articles % items_per_page,
        ;
        assert(rest > 0 ==> full < articles) by (nonlinear_arith)
            requires
                items_per_page > 0,
                articles == full * items_per_page + rest,
        ;
    }
    if rest > 0 {
        full + 1
    } else if articles == 0 {
        1
    } else {
        assert(full >= 1) by (nonlinear_arith)
            requires
                articles == full * items_per_page + rest,
                rest == 0,
                articles > 0,
        ;
        full
    }
}

/// The pages hold all articles, and one page fewer would not.
pub proof fn lemma_pages_hold_all(articles: int, items_per_page: int)
    requires
        articles > 0,
        items_per_page > 0,
    ensures
        (pages_for(articles, items_per_page) - 1) * items_per_page < articles,
        articles <= pages_for(articles, items_per_page) * items_per_page,
{
    let full = articles / items_per_page;
    let rest = articles % items_per_page;
    assert(articles == full * items_per_page + rest && 0 <= rest < items_per_page)
        by (nonlinear_arith)
        requires
            items_per_page > 0,
            full == articles / items_per_page,
            rest == articles % items_per_page,
    ;
    if rest > 0 {
        assert((full + 1) * items_per_page == full * items_per_page + items_per_page)
            by (nonlinear_arith);
    } else {
        assert((full - 1) * items_per_page == full * items_per_page - items_per_page)
            by (nonlinear_arith);
    }
}

/// The smaller of two numbers.
pub open spec fn least(a: int, b: int) -> int {
    if a <= b {
        a
    } else {
        b
    }
}

/// Where the page `current_page` starts in a list of `shown` articles: after
/// the articles of the pages before it, or at the end of the list where
/// those pages hold all of it.
pub open spec fn page_start(shown: int, current_page: int, items_per_page: int) -> int {
    least((current_page - 1) * items_per_page, shown)
}

/// Where the page `current_page` ends: `items_per_page` articles after its
/// start, or at the end of the list.
pub open spec fn page_end(shown: int, current_page: int, items_per_page: int) -> int {
    least(page_start(shown, current_page, items_per_page) + items_per_page, shown)
}

/// The part of a list of `shown` articles that the page `current_page`
/// shows, as the positions of its first article and of the one after its
/// last. Pages are counted from 1.
pub fn page_bounds(shown: usize, current_page: usize, items_per_page: usize) -> (bounds: (
    usize,
    usize,
))
    requires
        current_page >= 1,
    ensures
        bounds.0 == page_start(shown as int, current_page as int, items_per_page as int),
        bounds.1 == page_end(shown as int, current_page as int, items_per_page as int),
        bounds.0 <= bounds.1 <= shown,
{
    let before = current_page - 1;
    if items_per_page == 0 {
        assert(before * 0 == 0) by (nonlinear_arith);
        return (0, 0);
    }
    let full = shown / items_per_page;
    proof {
        let rest = shown % items_per_page;
        assert(shown == full * items_per_page + rest && 0 <= rest < items_per_page)
            by (nonlinear_arith)
            requires
                items_per_page > 0,
                full == shown / items_per_page,
                rest == shown % items_per_page,
        ;
        if before > full {
            assert(before * items_per_page >= (full + 1) * items_per_page) by (nonlinear_arith)
                requires
                    before >= full + 1,
                    items_per_page > 0,
            ;
            assert((full + 1) * items_per_page == full * items_per_page + items_per_page)
                by (nonlinear_arith);
        } else {
            assert(before * items_per_page <= full * items_per_page) by (nonlinear_arith)
                requires
                    0 <= before <= full,
                    items_per_page > 0,
            ;
        }
    }
    if before > full {
        return (shown, shown);
    }
    let start = before * items_per_page;
    let end = if shown - start > items_per_page {
        start + items_per_page
    } else {
        shown
    };
    (start, end)
}

/// The first page that the pager offers: two before the current one, and
/// not before the first.
pub open spec fn range_start(current_page: int) -> int {
    if current_page > 2 {
        current_page - 2
    } else {
        1
    }
}

/// The last page that the pager offers: two after the current one, and not
/// after the last.
pub open spec fn range_end(current_page: int, total_pages: int) -> int {
    if current_page + 2 <= total_pages {
        current_page + 2
    } else {
        total_pages
    }
}

/// The pages that the pager offers, in rising order; none where the first
/// would come after the last.
pub open spec fn pages_offered(current_page: int, total_pages: int) -> Seq<int> {
    let start = range_start(current_page);
    let end = range_end(current_page, total_pages);
    if start <= end {
        Seq::new((end - start + 1) as nat, |k: int| start + k)
    } else {
        Seq::empty()
    }
}

/// The pages that the pager offers around the current page.
pub fn page_range(current_page: usize, total_pages: usize) -> (pages: Vec<usize>)
    ensures
        pages@.map_values(|p: usize| p as int) == pages_offered(
            current_page as int,
            total_pages as int,
        ),
        pages@.len() == pages_offered(current_page as int, total_pages as int).len(),
        forall|k: int|
            0 <= k < pages@.len() ==> #[trigger] pages@[k] == range_start(current_page as int) + k,
        pages@.len() <= 5,
{
    let start: usize = if current_page > 2 {
        current_page - 2
    } else {
        1
    };
    let end: usize = if total_pages >= 2 && current_page <= total_pages - 2 {
        current_page + 2
    } else {
        total_pages
    };
    let mut pages: Vec<usize> = Vec::new();
    if start > end {
        assert(pages@.map_values(|p: usize| p as int) =~= Seq::<int>::empty());
        return pages;
    }
    let mut page: usize = start;
    while page < end
        invariant
            start <= page <= end,
            end - start <= 4,
            pages@.len() == page - start,
            forall|k: int| 0 <= k < pages@.len() ==> pages@[k] == start + k,
        decreases end - page,
    {
        pages.push(page);
        page += 1;
    }
    pages.push(end);
    assert(pages@.map_values(|p: usize| p as int) =~= pages_offered(
        current_page as int,
        total_pages as int,
    ));
    pages
}

/// The page before `page`, and the first page for the first.
pub fn previous_page(page: usize) -> (previous: usize)
    ensures
        previous == (if page > 1 {
            page - 1
        } else {
            1
        }),
{
    if page > 1 {
        page - 1
    } else {
        1
    }
}

/// The page after `page`, and the last page for the last.
pub fn next_page(page: usize, total_pages: usize) -> (next: usize)
    ensures
        next == least(page + 1, total_pages as int),
{
    if page < total_pages {
        page + 1
    } else {
        total_pages
    }
}

} // verus!
