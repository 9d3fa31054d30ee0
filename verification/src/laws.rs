//! Laws of the assembler and the aggregator, stated over the specification
//! functions that the executable contracts use.

use vstd::prelude::*;
use crate::athing::{spec_rank, spec_story};
use crate::dom::{
    Page, Row, elem_has_class, is_anchor, lemma_first_class_from_none,
    lemma_last_anchor_before_none, next_table_row,
};
use crate::fetch::{MAX_POSTS, all_page_posts, spec_page_posts};
use crate::post::spec_post;
use crate::text::{FIELD_LIMIT, spec_truncate};

verus! {

/// A story row with a story link, a following metadata row, and a parseable
/// positive, machine-representable rank assembles to a record whose rank is
/// the parsed integer and whose title and uri are the story link's text and
/// target, the title cut to the field limit.
pub proof fn lemma_assembler_keeps_story_fields(rows: Seq<Row>, i: int)
    requires
        0 <= i < rows.len(),
        spec_story(rows[i]) is Some,
        next_table_row(rows, i + 1) is Some,
        spec_rank(rows[i]) matches Some(n) && 1 <= n <= usize::MAX,
    ensures
        spec_post(rows, i) matches Some(p) && spec_story(rows[i]) matches Some(story)
            && spec_rank(rows[i]) == Some(p.rank) && p.uri == story.0 && p.title == spec_truncate(
            story.1,
            FIELD_LIMIT as int,
        ),
{
}

/// A field longer than the limit is truncated to exactly the limit many
/// characters; a field at or under the limit is unchanged.
pub proof fn lemma_truncation_boundary(s: Seq<char>)
    ensures
        s.len() > FIELD_LIMIT ==> spec_truncate(s, FIELD_LIMIT as int) == s.take(FIELD_LIMIT as int)
            && spec_truncate(s, FIELD_LIMIT as int).len() == FIELD_LIMIT,
        s.len() <= FIELD_LIMIT ==> spec_truncate(s, FIELD_LIMIT as int) == s,
{
}

/// Every assembled record carries a positive rank: a row whose rank marker
/// parses to zero is dropped like one with no parseable rank at all.
pub proof fn lemma_assembled_rank_is_positive(rows: Seq<Row>, i: int)
    requires
        0 <= i < rows.len(),
        spec_post(rows, i) is Some,
    ensures
        spec_post(rows, i) matches Some(p) && p.rank >= 1,
{
}

/// A story row with no following structural row assembles to nothing: the
/// post is dropped, not an error.
pub proof fn lemma_no_metadata_row_drops_post(rows: Seq<Row>, i: int)
    requires
        0 <= i < rows.len(),
        next_table_row(rows, i + 1) is None,
    ensures
        spec_post(rows, i) is None,
{
}

/// A promotional row pair — story link and rank present, while the metadata
/// row shows no user marker, no score marker and no anchor — assembles to a
/// record with title, uri and rank populated and author, points and comments
/// all absent.
pub proof fn lemma_promotional_post_fields(rows: Seq<Row>, i: int)
    requires
        0 <= i < rows.len(),
        spec_story(rows[i]) is Some,
        spec_rank(rows[i]) matches Some(n) && 1 <= n <= usize::MAX,
        next_table_row(rows, i + 1) matches Some(j) && (forall|k: int|
            0 <= k < rows[j].elements@.len() ==> !elem_has_class(rows[j].elements@[k], "hnuser"@)
                && !elem_has_class(rows[j].elements@[k], "score"@) && !is_anchor(
                rows[j].elements@[k],
            )),
    ensures
        spec_post(rows, i) matches Some(p) && (p.author is None && p.points is None
            && p.comments is None && (spec_story(rows[i]) matches Some(story) && (p.uri == story.0
            && p.title == spec_truncate(story.1, FIELD_LIMIT as int) && spec_rank(rows[i]) == Some(
            p.rank,
        )))),
{
    let j = next_table_row(rows, i + 1)->Some_0;
    let es = rows[j].elements@;
    lemma_first_class_from_none(es, "hnuser"@, 0);
    lemma_first_class_from_none(es, "score"@, 0);
    lemma_last_anchor_before_none(es, es.len() as int);
}

/// Pages that each yield a full page of consecutively ranked posts, the k-th
/// post of page p ranked `30*p + k + 1`, concatenate to posts ranked
/// `base + 1, base + 2, ...` in order; `base` is the rank count before the
/// first given page.
pub proof fn lemma_contiguous_ranks_from(pages: Seq<Page>, base: nat)
    requires
        forall|p: int| 0 <= p < pages.len() ==> #[trigger] spec_page_posts(pages[p]).len() == 30,
        forall|p: int, k: int|
            0 <= p < pages.len() && 0 <= k < 30 ==> #[trigger] spec_page_posts(pages[p])[k].rank
                == base + 30 * p + k + 1,
    ensures
        all_page_posts(pages).len() == 30 * pages.len(),
        forall|i: int|
            0 <= i < all_page_posts(pages).len() ==> #[trigger] all_page_posts(pages)[i].rank
                == base + i + 1,
    decreases pages.len(),
{
    if pages.len() > 0 {
        let rest = pages.drop_first();
        assert forall|p: int| 0 <= p < rest.len() implies #[trigger] spec_page_posts(
            rest[p],
        ).len() == 30 by {
            assert(rest[p] == pages[p + 1]);
        }
        assert forall|p: int, k: int|
            0 <= p < rest.len() && 0 <= k < 30 implies #[trigger] spec_page_posts(rest[p])[k].rank
            == (base + 30) + 30 * p + k + 1 by {
            assert(rest[p] == pages[p + 1]);
            assert(spec_page_posts(pages[p + 1])[k].rank == base + 30 * (p + 1) + k + 1);
        }
        lemma_contiguous_ranks_from(rest, base + 30);
        assert(spec_page_posts(pages[0]).len() == 30);
        assert forall|i: int| 0 <= i < all_page_posts(pages).len() implies #[trigger]
            all_page_posts(pages)[i].rank == base + i + 1 by {
            if i < 30 {
                assert(all_page_posts(pages)[i] == spec_page_posts(pages[0])[i]);
                assert(spec_page_posts(pages[0])[i].rank == base + 30 * 0 + i + 1);
            } else {
                assert(all_page_posts(pages)[i] == all_page_posts(rest)[i - 30]);
            }
        }
    }
}

/// With every page yielding thirty posts ranked consecutively from one, the
/// first `n` posts of the page sequence are exactly `n` posts whose ranks are
/// the contiguous sequence `1 ..= n`, in order — the sequence the aggregation
/// contract returns for a request of `n`.
pub proof fn lemma_fetch_posts_ranks(pages: Seq<Page>, n: int)
    requires
        0 <= n <= MAX_POSTS as int,
        n <= 30 * pages.len(),
        forall|p: int| 0 <= p < pages.len() ==> #[trigger] spec_page_posts(pages[p]).len() == 30,
        forall|p: int, k: int|
            0 <= p < pages.len() && 0 <= k < 30 ==> #[trigger] spec_page_posts(pages[p])[k].rank
                == 30 * p + k + 1,
    ensures
        all_page_posts(pages).len() >= n,
        all_page_posts(pages).take(n).len() == n,
        forall|i: int|
            0 <= i < n ==> #[trigger] all_page_posts(pages).take(n)[i].rank == i + 1,
{
    lemma_contiguous_ranks_from(pages, 0);
}

} // verus!
