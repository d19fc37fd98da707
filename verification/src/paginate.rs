//! Pages: an ordered list of posts cut into runs of a fixed size.

use vstd::prelude::*;
use crate::post::Post;

verus! {

/// One page of posts. `prev` and `next` hold the numbers under which the
/// neighbouring pages are shown, which count from one.
#[derive(Debug)]
pub struct Page<'a> {
    pub page: usize,
    pub next: Option<usize>,
    pub prev: Option<usize>,
    pub posts: &'a [&'a Post],
}

/// How many pages `count` posts fill at `per_page` posts a page.
pub open spec fn page_count(count: int, per_page: int) -> int
    recommends
        per_page > 0,
{
    (count + per_page - 1) / per_page
}

/// Where the page with this index starts among the posts.
pub open spec fn page_start(index: int, per_page: int) -> int {
    index * per_page
}

/// Where the page with this index ends among `count` posts.
pub open spec fn page_end(index: int, per_page: int, count: int) -> int {
    if (index + 1) * per_page < count {
        (index + 1) * per_page
    } else {
        count
    }
}

/// Whether `page` is the page with this index of `posts`.
pub open spec fn is_page<'a>(
    page: Page<'a>,
    index: int,
    posts: Seq<&'a Post>,
    per_page: int,
) -> bool {
    &&& page.page == index
    &&& page.posts@ == posts.subrange(
        page_start(index, per_page),
        page_end(index, per_page, posts.len() as int),
    )
    &&& page.prev == if index > 0 {
        Some(index as usize)
    } else {
        None
    }
    &&& page.next == if index < page_count(posts.len() as int, per_page) - 1 {
        Some((index + 2) as usize)
    } else {
        None
    }
}

/// The pages cover the posts: page `index` starts where the one before it
/// ends, the last page ends with the posts, and no page is empty or longer
/// than `per_page`.
pub proof fn lemma_pages_cover(count: int, per_page: int, index: int)
    requires
        per_page > 0,
        count >= 0,
        0 <= index < page_count(count, per_page),
    ensures
        0 <= page_start(index, per_page) < page_end(index, per_page, count) <= count,
        page_end(index, per_page, count) - page_start(index, per_page) <= per_page,
        index > 0 ==> page_start(index, per_page) == page_end(index - 1, per_page, count),
        index == page_count(count, per_page) - 1 <==> page_end(index, per_page, count) == count,
{
    let pages = page_count(count, per_page);
    assert(pages * per_page >= count && (pages - 1) * per_page < count) by (nonlinear_arith)
        requires
            pages == (count + per_page - 1) / per_page,
            per_page > 0,
            count >= 0,
    ;
    assert(index * per_page <= (pages - 1) * per_page) by (nonlinear_arith)
        requires
            index <= pages - 1,
            per_page > 0,
    ;
    assert((index + 1) * per_page == index * per_page + per_page) by (nonlinear_arith);
    assert(index * per_page >= 0) by (nonlinear_arith)
        requires
            index >= 0,
            per_page > 0,
    ;
    if index < pages - 1 {
        assert((index + 1) * per_page <= (pages - 1) * per_page) by (nonlinear_arith)
            requires
                index + 1 <= pages - 1,
                per_page > 0,
        ;
    }
    if index > 0 {
        assert((index - 1 + 1) * per_page == index * per_page);
    }
}

/// Iterate over a collection of posts in pages.
///
/// There are as many pages as the posts fill; page `i` holds the posts from
/// `i * per_page` up to `(i + 1) * per_page` or the end, names its
/// predecessor as `i` unless it is the first, and its successor as `i + 2`
/// unless it is the last.
pub fn paginate<'a>(posts: &'a [&'a Post], per_page: usize) -> (pages: Vec<Page<'a>>)
    requires
        per_page > 0,
    ensures
        pages.len() == page_count(posts@.len() as int, per_page as int),
        forall|i: int|
            0 <= i < pages.len() ==> is_page(#[trigger] pages[i], i, posts@, per_page as int),
{
    let n: usize = posts.len();
    let mut pages: Vec<Page<'a>> = Vec::new();
    let mut start: usize = 0;
    let ghost total = page_count(n as int, per_page as int);
    proof {
        assert(total * per_page >= n && (total - 1) * per_page < n) by (nonlinear_arith)
            requires
                total == (n + per_page - 1) / (per_page as int),
                per_page > 0,
                n >= 0,
        ;
        assert(0 <= total <= n && (n == 0 <==> total == 0)) by (nonlinear_arith)
            requires
                (total - 1) * per_page < n,
                total * per_page >= n,
                per_page > 0,
                n >= 0,
        ;
        assert(0 * per_page == 0);
    }
    while start < n
        invariant
            n == posts@.len(),
            per_page > 0,
            total == page_count(n as int, per_page as int),
            start <= n,
            pages.len() <= total <= n,
            start == n <==> pages.len() == total,
            start < n ==> start == page_start(pages.len() as int, per_page as int),
            forall|i: int|
                0 <= i < pages.len() ==> is_page(#[trigger] pages[i], i, posts@, per_page as int),
        decreases n - start,
    {
        let index: usize = pages.len();
        proof {
            lemma_pages_cover(n as int, per_page as int, index as int);
            if index + 1 < total {
                lemma_pages_cover(n as int, per_page as int, index + 1);
            }
        }
        let end: usize = if n - start > per_page {
            start + per_page
        } else {
            n
        };
        assert((index + 1) * per_page == index * per_page + per_page) by (nonlinear_arith);
        assert(end == page_end(index as int, per_page as int, n as int));
        let page = Page {
            page: index,
            prev: if index > 0 {
                Some(index)
            } else {
                None
            },
            next: if end < n {
                Some(index + 2)
            } else {
                None
            },
            posts: &posts[start..end],
        };
        pages.push(page);
        start = end;
    }
    pages
}

} // verus!
