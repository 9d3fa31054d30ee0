//! Rendering a post as a JSON object. An absent optional field is omitted
//! from the object — its key does not appear — rather than rendered as null.

use vstd::prelude::*;
use crate::post::{Post, PostView};

verus! {

/// The JSON string literal (quoted and escaped) that denotes the character
/// sequence `s`; it depends on the characters of `s` alone.
pub uninterp spec fn json_string_of(s: Seq<char>) -> Seq<char>;

/// A character that JSON string escaping passes through verbatim: not the
/// quote, not the backslash, not a control character.
pub open spec fn is_plain_json_char(c: char) -> bool {
    c != '"' && c != '\\' && c as u32 >= 32
}

/// Relies on serde_json::to_string on a string slice: it writes the JSON
/// string literal denoting `s`, escaping only the quote, the backslash and
/// control characters, and cannot fail on a string input.
#[verifier::external_body]
fn json_quote(s: &str) -> (r: String)
    ensures
        r@ == json_string_of(s@),
        (forall|i: int| 0 <= i < s@.len() ==> is_plain_json_char(s@[i])) ==> r@ == seq!['"'] + s@
            + seq!['"'],
{
    serde_json::to_string(s).unwrap_or_default()
}

/// The character for the decimal digit `d`.
pub open spec fn digit_char(d: nat) -> char {
    if d == 0 {
        '0'
    } else if d == 1 {
        '1'
    } else if d == 2 {
        '2'
    } else if d == 3 {
        '3'
    } else if d == 4 {
        '4'
    } else if d == 5 {
        '5'
    } else if d == 6 {
        '6'
    } else if d == 7 {
        '7'
    } else if d == 8 {
        '8'
    } else {
        '9'
    }
}

/// The decimal rendering of `n`, most significant digit first, no leading
/// zeros except for zero itself.
pub open spec fn dec_digits(n: nat) -> Seq<char>
    decreases n,
{
    if n < 10 {
        seq![digit_char(n)]
    } else {
        dec_digits(n / 10).push(digit_char(n % 10))
    }
}

/// The one-character string for the decimal digit `d`.
fn digit_str(d: usize) -> (r: &'static str)
    requires
        d < 10,
    ensures
        r@ == dec_digits(d as nat),
{
    let r: &'static str = match d {
        0 => "0",
        1 => "1",
        2 => "2",
        3 => "3",
        4 => "4",
        5 => "5",
        6 => "6",
        7 => "7",
        8 => "8",
        _ => "9",
    };
    proof {
        reveal_strlit("0");
        reveal_strlit("1");
        reveal_strlit("2");
        reveal_strlit("3");
        reveal_strlit("4");
        reveal_strlit("5");
        reveal_strlit("6");
        reveal_strlit("7");
        reveal_strlit("8");
        reveal_strlit("9");
        assert(r@ =~= dec_digits(d as nat));
    }
    r
}

/// The decimal rendering of `n`.
pub fn usize_to_string(n: usize) -> (r: String)
    ensures
        r@ == dec_digits(n as nat),
    decreases n,
{
    if n < 10 {
        digit_str(n).to_owned()
    } else {
        let mut s = usize_to_string(n / 10);
        s.append(digit_str(n % 10));
        proof {
            assert(s@ =~= dec_digits((n / 10) as nat).push(digit_char((n % 10) as nat)));
        }
        s
    }
}

/// The JSON object denoting post `p`: title, uri and rank always present, the
/// key of each optional field present exactly when the field is.
pub open spec fn spec_post_json(p: PostView) -> Seq<char> {
    "{\"title\":"@ + json_string_of(p.title) + ",\"uri\":"@ + json_string_of(p.uri) + ",\"rank\":"@
        + dec_digits(p.rank) + (match p.author {
        Some(a) => ",\"author\":"@ + json_string_of(a),
        None => Seq::empty(),
    }) + (match p.points {
        Some(v) => ",\"points\":"@ + dec_digits(v),
        None => Seq::empty(),
    }) + (match p.comments {
        Some(v) => ",\"comments\":"@ + dec_digits(v),
        None => Seq::empty(),
    }) + "}"@
}

/// Render `post` as its JSON object.
pub fn post_json(post: &Post) -> (r: String)
    ensures
        r@ == spec_post_json(post@),
{
    let mut s = String::from_str("{\"title\":");
    s.append(json_quote(post.title.as_str()).as_str());
    s.append(",\"uri\":");
    s.append(json_quote(post.uri.as_str()).as_str());
    s.append(",\"rank\":");
    s.append(usize_to_string(post.rank).as_str());
    match &post.author {
        Some(a) => {
            s.append(",\"author\":");
            s.append(json_quote(a.as_str()).as_str());
        },
        None => {},
    }
    match &post.points {
        Some(v) => {
            s.append(",\"points\":");
            s.append(usize_to_string(*v).as_str());
        },
        None => {},
    }
    match &post.comments {
        Some(v) => {
            s.append(",\"comments\":");
            s.append(usize_to_string(*v).as_str());
        },
        None => {},
    }
    s.append("}");
    proof {
        assert(s@ =~= spec_post_json(post@));
    }
    s
}

/// The objects of the first `i` posts, in order, comma separated.
pub open spec fn spec_joined_to(posts: Seq<PostView>, i: int) -> Seq<char>
    decreases i,
{
    if i <= 0 || i > posts.len() {
        Seq::empty()
    } else if i == 1 {
        spec_post_json(posts[0])
    } else {
        spec_joined_to(posts, i - 1) + ","@ + spec_post_json(posts[i - 1])
    }
}

/// The JSON array denoting `posts`: `[]` when empty, else the objects in
/// order, comma separated, in brackets.
pub open spec fn spec_posts_json(posts: Seq<PostView>) -> Seq<char> {
    "["@ + spec_joined_to(posts, posts.len() as int) + "]"@
}

/// Render `posts` as one JSON array.
pub fn posts_json(posts: &Vec<Post>) -> (r: String)
    ensures
        r@ == spec_posts_json(crate::fetch::views_of(posts@)),
{
    let ghost vs = crate::fetch::views_of(posts@);
    let mut s = String::from_str("[");
    let n = posts.len();
    let mut i: usize = 0;
    while i < n
        invariant
            n == posts@.len(),
            vs == crate::fetch::views_of(posts@),
            vs.len() == n,
            i <= n,
            s@ == "["@ + spec_joined_to(vs, i as int),
        decreases n - i,
    {
        proof {
            assert(vs[i as int] == posts@[i as int]@);
        }
        if i > 0 {
            s.append(",");
        }
        s.append(post_json(&posts[i]).as_str());
        proof {
            assert(s@ =~= "["@ + spec_joined_to(vs, i + 1));
        }
        i += 1;
    }
    s.append("]");
    proof {
        assert(s@ =~= spec_posts_json(vs));
    }
    s
}

} // verus!
