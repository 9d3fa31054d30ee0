//! Post assembly: turning one story row and its metadata row into a
//! validated, normalized `Post` record.

use vstd::prelude::*;
use crate::athing::{AThing, spec_author, spec_comments, spec_points, spec_rank, spec_story};
use crate::dom::{Row, next_table_row};
use crate::text::{FIELD_LIMIT, spec_truncate, truncate_chars};

verus! {

/// One listed post: its title and link, the rank the source rendered it at,
/// and, where shown, author, points and comment count.
#[derive(Debug, PartialEq, Eq)]
pub struct Post {
    pub title: String,
    pub uri: String,
    pub rank: usize,
    pub author: Option<String>,
    pub points: Option<usize>,
    pub comments: Option<usize>,
}

/// Mathematical shape of a `Post`.
pub ghost struct PostView {
    pub title: Seq<char>,
    pub uri: Seq<char>,
    pub rank: nat,
    pub author: Option<Seq<char>>,
    pub points: Option<nat>,
    pub comments: Option<nat>,
}

impl View for Post {
    type V = PostView;

    open spec fn view(&self) -> PostView {
        PostView {
            title: self.title@,
            uri: self.uri@,
            rank: self.rank as nat,
            author: match self.author {
                Some(a) => Some(a@),
                None => None,
            },
            points: match self.points {
                Some(p) => Some(p as nat),
                None => None,
            },
            comments: match self.comments {
                Some(c) => Some(c as nat),
                None => None,
            },
        }
    }
}

/// An extracted count survives only when it fits the machine word; an
/// oversized digit run is treated as absent, as the extractor reports it.
pub open spec fn clamp_count(o: Option<nat>) -> Option<nat> {
    match o {
        Some(n) => if n <= usize::MAX {
            Some(n)
        } else {
            None
        },
        None => None,
    }
}

/// The post assembled from story row `i` of `rows`: nothing when the story
/// link, the following metadata row, or a positive, machine-representable
/// rank is absent — a rank of zero is dropped like an unparseable one;
/// otherwise the record with title and author cut to the field limit and the
/// optional fields kept independently.
pub open spec fn spec_post(rows: Seq<Row>, i: int) -> Option<PostView> {
    match spec_story(rows[i]) {
        None => None,
        Some(story) => match next_table_row(rows, i + 1) {
            None => None,
            Some(j) => match spec_rank(rows[i]) {
                None => None,
                Some(rank) => if rank < 1 || rank > usize::MAX {
                    None
                } else {
                    Some(
                    PostView {
                        title: spec_truncate(story.1, FIELD_LIMIT as int),
                        uri: story.0,
                        rank: rank,
                        author: match spec_author(rows[j]) {
                            Some(a) => Some(spec_truncate(a, FIELD_LIMIT as int)),
                            None => None,
                        },
                        points: clamp_count(spec_points(rows[j])),
                        comments: clamp_count(spec_comments(rows[j])),
                    },
                )
                },
            },
        },
    }
}

impl Post {
    /// Assemble the post of story row `athing`, or nothing when the row lacks
    /// a story link, a following metadata row, or a positive, representable
    /// rank.
    pub fn try_from(athing: AThing<'_>) -> (r: Option<Post>)
        requires
            athing.wf(),
        ensures
            match r {
                Some(p) => spec_post(athing.0.rows@, athing.1 as int) == Some(p@),
                None => spec_post(athing.0.rows@, athing.1 as int) is None,
            },
    {
        let (uri, title) = match athing.uri_and_title() {
            Some(p) => p,
            None => {
                return None;
            },
        };
        let line2 = match athing.line2() {
            Some(l2) => l2,
            None => {
                return None;
            },
        };
        let rank = match athing.rank() {
            Some(v) => v,
            None => {
                return None;
            },
        };
        if rank < 1 {
            return None;
        }
        let author = match line2.author() {
            Some(a) => Some(truncate_chars(a, FIELD_LIMIT)),
            None => None,
        };
        Some(
            Post {
                title: truncate_chars(title, FIELD_LIMIT),
                uri,
                rank,
                author,
                points: line2.points(),
                comments: line2.comments(),
            },
        )
    }
}

} // verus!
