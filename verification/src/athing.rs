//! Row extraction: reading the raw fields of a story row and of the metadata
//! row that follows it.

use vstd::prelude::*;
use crate::dom::{
    Elem, Page, Row, elem_has_class, find_first_with_class, find_last_anchor, first_class_from,
    is_anchor, is_table_row, next_table_row, spec_first_class, spec_last_anchor,
};
use crate::text::{extract_number_prefix, number_prefix};

verus! {

/// A story row: row `self.1` of page `self.0`, carrying the story link and
/// the rank marker.
#[derive(Clone, Copy)]
pub struct AThing<'a>(pub &'a Page, pub usize);

/// The metadata row that follows a story row: row `self.1` of page `self.0`,
/// carrying author, points and comment data.
#[derive(Clone, Copy)]
pub struct AThingLine2<'a>(pub &'a Page, pub usize);

/// Link target and text of the first story-link element of `row`; nothing
/// when the element or its link target is absent.
pub open spec fn spec_story(row: Row) -> Option<(Seq<char>, Seq<char>)> {
    match spec_first_class(row.elements@, "storylink"@) {
        Some(k) => match row.elements@[k].href {
            Some(h) => Some((h@, row.elements@[k].text@)),
            None => None,
        },
        None => None,
    }
}

/// Numeric prefix of the first rank-marker element of `row`.
pub open spec fn spec_rank(row: Row) -> Option<nat> {
    match spec_first_class(row.elements@, "rank"@) {
        Some(k) => number_prefix(row.elements@[k].text@),
        None => None,
    }
}

/// Text of the first user-marker element of `row`.
pub open spec fn spec_author(row: Row) -> Option<Seq<char>> {
    match spec_first_class(row.elements@, "hnuser"@) {
        Some(k) => Some(row.elements@[k].text@),
        None => None,
    }
}

/// Numeric prefix of the first score-marker element of `row`.
pub open spec fn spec_points(row: Row) -> Option<nat> {
    match spec_first_class(row.elements@, "score"@) {
        Some(k) => number_prefix(row.elements@[k].text@),
        None => None,
    }
}

/// Numeric prefix of the last anchor element of `row`; a trailing anchor
/// without a leading digit (a "discuss" link) yields nothing.
pub open spec fn spec_comments(row: Row) -> Option<nat> {
    match spec_last_anchor(row.elements@) {
        Some(k) => number_prefix(row.elements@[k].text@),
        None => None,
    }
}

impl<'a> AThing<'a> {
    /// The row index lies inside the page.
    pub open spec fn wf(self) -> bool {
        self.1 < self.0.rows@.len()
    }

    /// The row this story handle points at.
    pub open spec fn row(self) -> Row {
        self.0.rows@[self.1 as int]
    }

    /// Link target and text of the story link, or nothing when absent.
    pub fn uri_and_title(&self) -> (r: Option<(String, String)>)
        requires
            self.wf(),
        ensures
            match r {
                Some(p) => spec_story(self.row()) == Some((p.0@, p.1@)),
                None => spec_story(self.row()) is None,
            },
    {
        let row = &self.0.rows[self.1];
        match find_first_with_class(&row.elements, "storylink") {
            Some(k) => match &row.elements[k].href {
                Some(h) => Some((h.clone(), row.elements[k].text.clone())),
                None => None,
            },
            None => None,
        }
    }

    /// The rank marker's numeric prefix; nothing when the marker or a leading
    /// digit is absent, or the value does not fit the machine word.
    pub fn rank(&self) -> (r: Option<usize>)
        requires
            self.wf(),
        ensures
            match r {
                Some(v) => spec_rank(self.row()) == Some(v as nat),
                None => spec_rank(self.row()) is None || (spec_rank(self.row()) matches Some(n)
                    && n > usize::MAX),
            },
    {
        let row = &self.0.rows[self.1];
        match find_first_with_class(&row.elements, "rank") {
            Some(k) => extract_number_prefix(row.elements[k].text.as_str()),
            None => None,
        }
    }

    /// The next sibling row that is itself a table-row element: the metadata
    /// row. Nothing when the siblings are exhausted first.
    pub fn line2(&self) -> (r: Option<AThingLine2<'a>>)
        requires
            self.wf(),
        ensures
            match r {
                Some(l2) => l2.0 == self.0 && l2.wf() && next_table_row(
                    self.0.rows@,
                    self.1 + 1,
                ) == Some(l2.1 as int),
                None => next_table_row(self.0.rows@, self.1 + 1) is None,
            },
    {
        let rows = &self.0.rows;
        let n = rows.len();
        let mut i: usize = self.1 + 1;
        while i < rows.len()
            invariant
                self.1 < i <= rows@.len(),
                rows == &self.0.rows,
                next_table_row(rows@, self.1 + 1) == next_table_row(rows@, i as int),
            decreases rows@.len() - i,
        {
            let is_tr = match &rows[i].name {
                Some(n) => crate::dom::str_eq(n.as_str(), "tr"),
                None => false,
            };
            if is_tr {
                return Some(AThingLine2(self.0, i));
            }
            i += 1;
        }
        None
    }
}

impl<'a> AThingLine2<'a> {
    /// The row index lies inside the page.
    pub open spec fn wf(self) -> bool {
        self.1 < self.0.rows@.len()
    }

    /// The row this metadata handle points at.
    pub open spec fn row(self) -> Row {
        self.0.rows@[self.1 as int]
    }

    /// Text of the user marker, or nothing when absent.
    pub fn author(&self) -> (r: Option<String>)
        requires
            self.wf(),
        ensures
            match r {
                Some(a) => spec_author(self.row()) == Some(a@),
                None => spec_author(self.row()) is None,
            },
    {
        let row = &self.0.rows[self.1];
        match find_first_with_class(&row.elements, "hnuser") {
            Some(k) => Some(row.elements[k].text.clone()),
            None => None,
        }
    }

    /// The score marker's numeric prefix; nothing when the marker or a
    /// leading digit is absent, or the value does not fit the machine word.
    pub fn points(&self) -> (r: Option<usize>)
        requires
            self.wf(),
        ensures
            match r {
                Some(v) => spec_points(self.row()) == Some(v as nat),
                None => spec_points(self.row()) is None || (spec_points(self.row())
                    matches Some(n) && n > usize::MAX),
            },
    {
        let row = &self.0.rows[self.1];
        match find_first_with_class(&row.elements, "score") {
            Some(k) => extract_number_prefix(row.elements[k].text.as_str()),
            None => None,
        }
    }

    /// The last anchor's numeric prefix; nothing when no anchor exists, its
    /// text has no leading digit, or the value does not fit the machine word.
    pub fn comments(&self) -> (r: Option<usize>)
        requires
            self.wf(),
        ensures
            match r {
                Some(v) => spec_comments(self.row()) == Some(v as nat),
                None => spec_comments(self.row()) is None || (spec_comments(self.row())
                    matches Some(n) && n > usize::MAX),
            },
    {
        let row = &self.0.rows[self.1];
        match find_last_anchor(&row.elements) {
            Some(k) => extract_number_prefix(row.elements[k].text.as_str()),
            None => None,
        }
    }
}

} // verus!
