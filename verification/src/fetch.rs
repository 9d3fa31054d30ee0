//! Pagination aggregation: extracting every valid post of a page and folding
//! successive pages into one ranked sequence capped at a requested count.

use vstd::prelude::*;
use crate::athing::AThing;
use crate::dom::{Page, Row, has_string, is_table_row, row_has_class, str_eq};
use crate::post::{Post, PostView, spec_post};

verus! {

/// Largest number of posts one aggregation may return.
pub const MAX_POSTS: usize = 100;

/// A requested count clamped to the configured maximum.
pub open spec fn spec_clamp(n: int) -> int {
    if n <= MAX_POSTS as int {
        n
    } else {
        MAX_POSTS as int
    }
}

/// The mathematical shapes of a sequence of posts.
pub open spec fn views_of(s: Seq<Post>) -> Seq<PostView> {
    s.map_values(|p: Post| p@)
}

/// A story row: a table-row element carrying the story-row marker class.
pub open spec fn is_story_row(r: Row) -> bool {
    is_table_row(r) && row_has_class(r, "athing"@)
}

/// The posts assembled from the story rows of `rows` at or after `i`, in
/// document order, rows that assemble to nothing dropped.
pub open spec fn page_posts_from(rows: Seq<Row>, i: int) -> Seq<PostView>
    decreases rows.len() - i,
{
    if i < 0 || i >= rows.len() {
        Seq::empty()
    } else {
        let rest = page_posts_from(rows, i + 1);
        if is_story_row(rows[i]) {
            match spec_post(rows, i) {
                Some(p) => seq![p] + rest,
                None => rest,
            }
        } else {
            rest
        }
    }
}

/// The posts one page yields, in document order.
pub open spec fn spec_page_posts(p: Page) -> Seq<PostView> {
    page_posts_from(p.rows@, 0)
}

/// The posts a sequence of pages yields, page by page.
pub open spec fn all_page_posts(pages: Seq<Page>) -> Seq<PostView>
    decreases pages.len(),
{
    if pages.len() == 0 {
        Seq::empty()
    } else {
        spec_page_posts(pages[0]) + all_page_posts(pages.drop_first())
    }
}

/// The first `n` entries of `s`, or all of `s` when it is shorter.
pub open spec fn take_upto(s: Seq<PostView>, n: int) -> Seq<PostView> {
    if s.len() <= n {
        s
    } else {
        s.take(n)
    }
}

/// Appending a page appends its posts.
pub proof fn lemma_all_page_posts_push(pages: Seq<Page>, p: Page)
    ensures
        all_page_posts(pages.push(p)) == all_page_posts(pages) + spec_page_posts(p),
    decreases pages.len(),
{
    if pages.len() == 0 {
        assert(pages.push(p).drop_first() =~= Seq::<Page>::empty());
        assert(pages.push(p)[0] == p);
        assert(all_page_posts(Seq::<Page>::empty()) == Seq::<PostView>::empty());
        assert(all_page_posts(pages.push(p)) =~= all_page_posts(pages) + spec_page_posts(p));
    } else {
        assert(pages.push(p).drop_first() =~= pages.drop_first().push(p));
        lemma_all_page_posts_push(pages.drop_first(), p);
        assert(spec_page_posts(pages[0]) + (all_page_posts(pages.drop_first())
            + spec_page_posts(p)) =~= (spec_page_posts(pages[0]) + all_page_posts(
            pages.drop_first(),
        )) + spec_page_posts(p));
    }
}

/// The posts of a page sequence split at `k` into the posts of the first `k`
/// pages followed by the posts of the rest.
pub proof fn lemma_all_page_posts_split(pages: Seq<Page>, k: int)
    requires
        0 <= k <= pages.len(),
    ensures
        all_page_posts(pages) == all_page_posts(pages.take(k)) + all_page_posts(pages.skip(k)),
    decreases k,
{
    if k == 0 {
        assert(pages.take(0) =~= Seq::<Page>::empty());
        assert(pages.skip(0) =~= pages);
        assert(all_page_posts(pages.take(0)) + all_page_posts(pages.skip(0))
            =~= all_page_posts(pages));
    } else {
        lemma_all_page_posts_split(pages, k - 1);
        assert(pages.take(k) =~= pages.take(k - 1).push(pages[k - 1]));
        lemma_all_page_posts_push(pages.take(k - 1), pages[k - 1]);
        assert(pages.skip(k - 1)[0] == pages[k - 1]);
        assert(pages.skip(k - 1).drop_first() =~= pages.skip(k));
        assert(all_page_posts(pages.skip(k - 1)) == spec_page_posts(pages[k - 1])
            + all_page_posts(pages.skip(k)));
        assert((all_page_posts(pages.take(k - 1)) + spec_page_posts(pages[k - 1]))
            + all_page_posts(pages.skip(k)) =~= all_page_posts(pages.take(k - 1)) + (
        spec_page_posts(pages[k - 1]) + all_page_posts(pages.skip(k))));
    }
}

/// Mapping to views commutes with appending one post.
pub proof fn lemma_views_of_push(s: Seq<Post>, p: Post)
    ensures
        views_of(s.push(p)) == views_of(s).push(p@),
{
    assert(views_of(s.push(p)) =~= views_of(s).push(p@));
}

/// Every valid post of `page`, in document order: each story row is assembled
/// and the rows that yield nothing are dropped.
pub fn extract_posts(page: &Page) -> (r: Vec<Post>)
    ensures
        views_of(r@) == spec_page_posts(*page),
{
    let mut result: Vec<Post> = Vec::new();
    let n = page.rows.len();
    let mut i: usize = 0;
    while i < n
        invariant
            n == page.rows@.len(),
            i <= n,
            views_of(result@) + page_posts_from(page.rows@, i as int) == page_posts_from(
                page.rows@,
                0,
            ),
        decreases n - i,
    {
        let row = &page.rows[i];
        let story = match &row.name {
            Some(nm) => str_eq(nm.as_str(), "tr") && has_string(&row.classes, "athing"),
            None => false,
        };
        assert(story == is_story_row(page.rows@[i as int]));
        if story {
            match Post::try_from(AThing(page, i)) {
                Some(p) => {
                    proof {
                        lemma_views_of_push(result@, p);
                        assert(views_of(result@).push(p@) + page_posts_from(
                            page.rows@,
                            i + 1,
                        ) =~= views_of(result@) + (seq![p@] + page_posts_from(
                            page.rows@,
                            i + 1,
                        )));
                    }
                    result.push(p);
                },
                None => {},
            }
        }
        i += 1;
    }
    result
}

/// The aggregation state: how many posts were asked for, the posts gathered
/// so far, and the number of the page to fetch next. The surrounding
/// application fetches and converts each page and hands it to [`Self::push_page`]
/// until [`Self::done`] holds or a fetch fails.
pub struct PostFetcher {
    /// The requested count, already clamped to [`MAX_POSTS`].
    pub requested: usize,
    /// The number of the page to fetch next; pages are numbered from one.
    pub next_page: usize,
    /// The posts gathered so far, never more than `requested`.
    pub posts: Vec<Post>,
    /// The pages handed in so far.
    pub pages_seen: Ghost<Seq<Page>>,
}

impl PostFetcher {
    /// The gathered posts are exactly the first `requested` posts that the
    /// pages seen so far yield, and pages were consumed in order.
    pub open spec fn wf(self) -> bool {
        &&& self.requested <= MAX_POSTS
        &&& self.posts@.len() <= self.requested
        &&& views_of(self.posts@) == take_upto(
            all_page_posts(self.pages_seen@),
            self.requested as int,
        )
        &&& self.next_page == self.pages_seen@.len() + 1
    }

    /// A fresh aggregation for `n` posts; the request is clamped to
    /// [`MAX_POSTS`]. A request for zero posts is complete at once, before
    /// any page is fetched.
    pub fn new(n: usize) -> (r: PostFetcher)
        ensures
            r.wf(),
            r.requested as int == spec_clamp(n as int),
            r.posts@.len() == 0,
            r.pages_seen@ == Seq::<Page>::empty(),
            r.next_page == 1,
    {
        let requested = if n > MAX_POSTS {
            MAX_POSTS
        } else {
            n
        };
        let posts: Vec<Post> = Vec::new();
        proof {
            assert(views_of(Seq::<Post>::empty()) =~= Seq::<PostView>::empty());
        }
        PostFetcher { requested, next_page: 1, posts, pages_seen: Ghost(Seq::empty()) }
    }

    /// Whether the requested count has been gathered.
    pub fn done(&self) -> (r: bool)
        requires
            self.wf(),
        ensures
            r == (self.posts@.len() == self.requested as int),
    {
        self.posts.len() == self.requested
    }

    /// Fold the next page in: its valid posts are appended in order until the
    /// requested count is reached, and the page counter advances by one.
    pub fn push_page(&mut self, page: &Page)
        requires
            old(self).wf(),
            old(self).next_page < usize::MAX,
        ensures
            final(self).wf(),
            final(self).requested == old(self).requested,
            final(self).next_page == old(self).next_page + 1,
            final(self).pages_seen@ == old(self).pages_seen@.push(*page),
    {
        let ghost all_old = all_page_posts(self.pages_seen@);
        let ghost extr = spec_page_posts(*page);
        proof {
            lemma_all_page_posts_push(self.pages_seen@, *page);
        }
        let mut rest = extract_posts(page);
        let ghost total = extr.len() as int;
        let ghost mut k: int = 0;
        while rest.len() > 0 && self.posts.len() < self.requested
            invariant
                self.requested == old(self).requested,
                self.next_page == old(self).next_page,
                self.pages_seen == old(self).pages_seen,
                0 <= k <= total,
                total == extr.len(),
                views_of(rest@) == extr.skip(k),
                self.posts@.len() <= self.requested,
                views_of(self.posts@) == take_upto(all_old + extr.take(k), self.requested as int),
            decreases total - k,
        {
            let ghost rest_before = rest@;
            let ghost posts_before = self.posts@;
            let p = rest.remove(0);
            proof {
                assert(views_of(rest_before).len() == rest_before.len());
                assert(views_of(rest_before)[0] == p@);
                assert(extr.skip(k).len() > 0);
                assert(extr.skip(k)[0] == extr[0 + k]);
                assert(views_of(rest@) =~= extr.skip(k + 1)) by {
                    assert(views_of(rest@) =~= views_of(rest_before).skip(1));
                    assert(views_of(rest_before).skip(1) =~= extr.skip(k).skip(1));
                    assert(extr.skip(k).skip(1) =~= extr.skip(k + 1));
                };
                // the gathered posts are still short of the request, so the
                // posts of the pages seen so far all fit below the cap
                assert(views_of(posts_before).len() == posts_before.len());
                assert(posts_before.len() < self.requested as int);
                assert((all_old + extr.take(k)).len() < self.requested as int);
                lemma_views_of_push(posts_before, p);
                assert(views_of(posts_before).push(extr[k]) =~= all_old + extr.take(k + 1));
            }
            self.posts.push(p);
            proof {
                k = k + 1;
                assert(views_of(self.posts@) == take_upto(
                    all_old + extr.take(k),
                    self.requested as int,
                ));
            }
        }
        proof {
            if views_of(rest@).len() == 0 {
                assert(k == total);
                assert(extr.take(k) =~= extr);
            } else {
                assert(self.posts@.len() == self.requested as int);
                assert((all_old + extr.take(k)).len() >= self.requested as int);
                assert((all_old + extr.take(k)).take(self.requested as int) =~= (all_old
                    + extr).take(self.requested as int));
            }
            assert(views_of(self.posts@) == take_upto(all_old + extr, self.requested as int));
        }
        self.next_page = self.next_page + 1;
        proof {
            self.pages_seen@ = self.pages_seen@.push(*page);
        }
    }
}

/// The requested posts, gathered from `pages` taken in order as far as
/// needed: exactly the first `spec_clamp(n)` posts the pages yield, or
/// nothing when the pages run out first — no partial result is returned.
pub fn fetch_posts(n: usize, pages: &Vec<Page>) -> (r: Option<Vec<Post>>)
    requires
        pages@.len() < usize::MAX,
    ensures
        ({
            let m = spec_clamp(n as int);
            let all = all_page_posts(pages@);
            if all.len() >= m {
                r matches Some(v) && views_of(v@) == all.take(m)
            } else {
                r is None
            }
        }),
{
    let mut f = PostFetcher::new(n);
    proof {
        assert(pages@.take(0) =~= Seq::<Page>::empty());
    }
    while !f.done() && f.next_page <= pages.len()
        invariant
            pages@.len() < usize::MAX,
            f.wf(),
            f.requested as int == spec_clamp(n as int),
            1 <= f.next_page <= pages@.len() + 1,
            f.pages_seen@ == pages@.take(f.next_page as int - 1),
        decreases pages@.len() + 1 - f.next_page,
    {
        let idx = f.next_page - 1;
        f.push_page(&pages[idx]);
        proof {
            assert(pages@.take(idx + 1) =~= pages@.take(idx as int).push(pages@[idx as int]));
        }
    }
    let ghost m = spec_clamp(n as int);
    let ghost all = all_page_posts(pages@);
    let ghost seen = all_page_posts(f.pages_seen@);
    if f.done() {
        proof {
            lemma_all_page_posts_split(pages@, f.next_page as int - 1);
            assert(views_of(f.posts@).len() == f.posts@.len());
            if seen.len() <= m {
                assert(seen.take(m) =~= seen);
            }
            assert(seen.len() >= m);
            assert(views_of(f.posts@) =~= seen.take(m));
            assert(seen.take(m) =~= all.take(m));
        }
        Some(f.posts)
    } else {
        proof {
            assert(f.next_page == pages@.len() + 1);
            assert(f.pages_seen@ =~= pages@);
            assert(views_of(f.posts@).len() == f.posts@.len());
            assert(all.len() < m);
        }
        None
    }
}

} // verus!
