//! A plain-value model of the part of a parsed listing page that extraction
//! reads: a page is the sequence of sibling rows that holds the story rows,
//! each row carries its element name, its own classes, and its descendant
//! elements in document order.

use vstd::prelude::*;

verus! {

/// One descendant element of a row: its tag name, class list, optional link
/// target, and text content.
pub struct Elem {
    pub name: String,
    pub classes: Vec<String>,
    pub href: Option<String>,
    pub text: String,
}

/// One sibling node in a page's row sequence. `name` is `None` for a sibling
/// that is not an element (text or comment nodes between rows).
pub struct Row {
    pub name: Option<String>,
    pub classes: Vec<String>,
    pub elements: Vec<Elem>,
}

/// The sequence of sibling rows of one listing page, in document order.
pub struct Page {
    pub rows: Vec<Row>,
}

/// Whether the string sequence `c` occurs in the list `l`.
pub open spec fn in_string_list(l: Seq<String>, c: Seq<char>) -> bool {
    exists|i: int| 0 <= i < l.len() && l[i]@ == c
}

/// Whether element `e` carries class `c`.
pub open spec fn elem_has_class(e: Elem, c: Seq<char>) -> bool {
    in_string_list(e.classes@, c)
}

/// Whether row `r` carries class `c`.
pub open spec fn row_has_class(r: Row, c: Seq<char>) -> bool {
    in_string_list(r.classes@, c)
}

/// Whether element `e` is an anchor element.
pub open spec fn is_anchor(e: Elem) -> bool {
    e.name@ == "a"@
}

/// Whether row `r` is a table-row element.
pub open spec fn is_table_row(r: Row) -> bool {
    r.name matches Some(n) && n@ == "tr"@
}

/// Index of the first element at or after `i` that carries class `c`.
pub open spec fn first_class_from(es: Seq<Elem>, c: Seq<char>, i: int) -> Option<int>
    decreases es.len() - i,
{
    if i < 0 || i >= es.len() {
        None
    } else if elem_has_class(es[i], c) {
        Some(i)
    } else {
        first_class_from(es, c, i + 1)
    }
}

/// Index of the first element of `es` that carries class `c`.
pub open spec fn spec_first_class(es: Seq<Elem>, c: Seq<char>) -> Option<int> {
    first_class_from(es, c, 0)
}

/// Index of the last anchor element of `es` at an index below `i`.
pub open spec fn last_anchor_before(es: Seq<Elem>, i: int) -> Option<int>
    decreases i,
{
    if i <= 0 || i > es.len() {
        None
    } else if is_anchor(es[i - 1]) {
        Some(i - 1)
    } else {
        last_anchor_before(es, i - 1)
    }
}

/// Index of the last anchor element of `es`.
pub open spec fn spec_last_anchor(es: Seq<Elem>) -> Option<int> {
    last_anchor_before(es, es.len() as int)
}

/// Index of the first table-row element of `rows` at or after `i`.
pub open spec fn next_table_row(rows: Seq<Row>, i: int) -> Option<int>
    decreases rows.len() - i,
{
    if i < 0 || i >= rows.len() {
        None
    } else if is_table_row(rows[i]) {
        Some(i)
    } else {
        next_table_row(rows, i + 1)
    }
}

/// A class search over elements of which none carries the class finds nothing.
pub proof fn lemma_first_class_from_none(es: Seq<Elem>, c: Seq<char>, i: int)
    requires
        forall|k: int| 0 <= k < es.len() ==> !elem_has_class(es[k], c),
    ensures
        first_class_from(es, c, i) is None,
    decreases es.len() - i,
{
    if 0 <= i < es.len() {
        lemma_first_class_from_none(es, c, i + 1);
    }
}

/// An anchor search over elements of which none is an anchor finds nothing.
pub proof fn lemma_last_anchor_before_none(es: Seq<Elem>, i: int)
    requires
        forall|k: int| 0 <= k < es.len() ==> !is_anchor(es[k]),
    ensures
        last_anchor_before(es, i) is None,
    decreases i,
{
    if 0 < i <= es.len() {
        lemma_last_anchor_before_none(es, i - 1);
    }
}

/// Character-wise string equality.
pub fn str_eq(a: &str, b: &str) -> (r: bool)
    ensures
        r == (a@ == b@),
{
    let la = a.unicode_len();
    let lb = b.unicode_len();
    if la != lb {
        return false;
    }
    let mut i: usize = 0;
    while i < la
        invariant
            la == a@.len(),
            la == b@.len(),
            i <= la,
            forall|j: int| 0 <= j < i ==> a@[j] == b@[j],
        decreases la - i,
    {
        if a.get_char(i) != b.get_char(i) {
            return false;
        }
        i += 1;
    }
    proof {
        assert(a@ =~= b@);
    }
    true
}

/// Whether the string `needle` occurs in `list`.
pub fn has_string(list: &Vec<String>, needle: &str) -> (r: bool)
    ensures
        r == in_string_list(list@, needle@),
{
    let mut i: usize = 0;
    while i < list.len()
        invariant
            i <= list@.len(),
            forall|j: int| 0 <= j < i ==> list@[j]@ != needle@,
        decreases list@.len() - i,
    {
        if str_eq(list[i].as_str(), needle) {
            return true;
        }
        i += 1;
    }
    false
}

/// Index of the first descendant element carrying class `class`, if any.
pub fn find_first_with_class(elements: &Vec<Elem>, class: &str) -> (r: Option<usize>)
    ensures
        match r {
            Some(k) => k < elements@.len() && elem_has_class(elements@[k as int], class@)
                && spec_first_class(elements@, class@) == Some(k as int),
            None => spec_first_class(elements@, class@) is None,
        },
{
    let mut i: usize = 0;
    while i < elements.len()
        invariant
            i <= elements@.len(),
            spec_first_class(elements@, class@) == first_class_from(elements@, class@, i as int),
        decreases elements@.len() - i,
    {
        if has_string(&elements[i].classes, class) {
            return Some(i);
        }
        i += 1;
    }
    None
}

/// Index of the last descendant anchor element, if any.
pub fn find_last_anchor(elements: &Vec<Elem>) -> (r: Option<usize>)
    ensures
        match r {
            Some(k) => k < elements@.len() && is_anchor(elements@[k as int])
                && spec_last_anchor(elements@) == Some(k as int),
            None => spec_last_anchor(elements@) is None,
        },
{
    let mut i: usize = elements.len();
    while i > 0
        invariant
            i <= elements@.len(),
            spec_last_anchor(elements@) == last_anchor_before(elements@, i as int),
        decreases i,
    {
        if str_eq(elements[i - 1].name.as_str(), "a") {
            return Some(i - 1);
        }
        i -= 1;
    }
    None
}

} // verus!
