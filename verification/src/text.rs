//! Text primitives shared by the extractors: numeric-prefix parsing and
//! character-based truncation.

use vstd::prelude::*;

verus! {

/// Maximum length, in characters, of a title or author field.
pub const FIELD_LIMIT: usize = 256;

/// Whether `c` is an ASCII decimal digit.
pub open spec fn is_ascii_digit_char(c: char) -> bool {
    48 <= c as u32 <= 57
}

/// Numeric value of the ASCII digit `c`.
pub open spec fn digit_value(c: char) -> nat {
    (c as u32 - 48) as nat
}

/// Length of the longest prefix of `s` made of ASCII decimal digits.
pub open spec fn digit_prefix_len(s: Seq<char>) -> int
    decreases s.len(),
{
    if s.len() == 0 || !is_ascii_digit_char(s[0]) {
        0
    } else {
        1 + digit_prefix_len(s.drop_first())
    }
}

/// Value of a sequence of ASCII digits read as a decimal number.
pub open spec fn digits_value(s: Seq<char>) -> nat
    decreases s.len(),
{
    if s.len() == 0 {
        0
    } else {
        digits_value(s.drop_last()) * 10 + digit_value(s.last())
    }
}

/// The numeric prefix of `s`: the value of its longest leading digit run,
/// or nothing when no leading digit exists.
pub open spec fn number_prefix(s: Seq<char>) -> Option<nat> {
    if digit_prefix_len(s) == 0 {
        None
    } else {
        Some(digits_value(s.take(digit_prefix_len(s))))
    }
}

/// `s` truncated to at most `n` characters.
pub open spec fn spec_truncate(s: Seq<char>, n: int) -> Seq<char> {
    if s.len() <= n {
        s
    } else {
        s.take(n)
    }
}

/// The digit-prefix length lies in `0 ..= s.len()`, everything before it is a
/// digit, and the character at it (when inside `s`) is not.
pub proof fn lemma_digit_prefix_len_bounds(s: Seq<char>)
    ensures
        0 <= digit_prefix_len(s) <= s.len(),
        forall|j: int| 0 <= j < digit_prefix_len(s) ==> is_ascii_digit_char(s[j]),
        digit_prefix_len(s) < s.len() ==> !is_ascii_digit_char(s[digit_prefix_len(s)]),
    decreases s.len(),
{
    if s.len() == 0 || !is_ascii_digit_char(s[0]) {
    } else {
        lemma_digit_prefix_len_bounds(s.drop_first());
        assert forall|j: int| 0 <= j < digit_prefix_len(s) implies is_ascii_digit_char(s[j]) by {
            if j > 0 {
                assert(s.drop_first()[j - 1] == s[j]);
            }
        }
        if digit_prefix_len(s) < s.len() {
            assert(s.drop_first()[digit_prefix_len(s) - 1] == s[digit_prefix_len(s)]);
        }
    }
}

/// A position preceded only by digits and not itself a digit (or the end of
/// `s`) is exactly the digit-prefix length.
pub proof fn lemma_digit_prefix_len_is(s: Seq<char>, i: int)
    requires
        0 <= i <= s.len(),
        forall|j: int| 0 <= j < i ==> is_ascii_digit_char(s[j]),
        i == s.len() || !is_ascii_digit_char(s[i]),
    ensures
        digit_prefix_len(s) == i,
    decreases s.len(),
{
    if s.len() == 0 {
    } else if i == 0 {
        if s.len() > 0 && is_ascii_digit_char(s[0]) {
            lemma_digit_prefix_len_bounds(s);
        }
    } else {
        assert(is_ascii_digit_char(s[0]));
        assert forall|j: int| 0 <= j < i - 1 implies is_ascii_digit_char(s.drop_first()[j]) by {
            assert(s.drop_first()[j] == s[j + 1]);
        }
        if i < s.len() {
            assert(s.drop_first()[i - 1] == s[i]);
        }
        lemma_digit_prefix_len_is(s.drop_first(), i - 1);
    }
}

/// Preceded only by digits, position `i` is at or below the digit-prefix length.
pub proof fn lemma_digit_prefix_len_at_least(s: Seq<char>, i: int)
    requires
        0 <= i <= s.len(),
        forall|j: int| 0 <= j < i ==> is_ascii_digit_char(s[j]),
    ensures
        digit_prefix_len(s) >= i,
{
    lemma_digit_prefix_len_bounds(s);
    if digit_prefix_len(s) < i {
        assert(is_ascii_digit_char(s[digit_prefix_len(s)]));
        lemma_digit_prefix_len_is(s, digit_prefix_len(s));
    }
}

/// Reading one more digit multiplies the value by ten and adds that digit.
pub proof fn lemma_digits_value_take_succ(s: Seq<char>, i: int)
    requires
        0 <= i < s.len(),
    ensures
        digits_value(s.take(i + 1)) == digits_value(s.take(i)) * 10 + digit_value(s[i]),
{
    assert(s.take(i + 1).drop_last() =~= s.take(i));
    assert(s.take(i + 1).last() == s[i]);
}

/// A longer digit run never has a smaller value.
pub proof fn lemma_digits_value_take_monotone(s: Seq<char>, i: int, j: int)
    requires
        0 <= i <= j <= s.len(),
    ensures
        digits_value(s.take(i)) <= digits_value(s.take(j)),
    decreases j - i,
{
    if i < j {
        lemma_digits_value_take_monotone(s, i, j - 1);
        lemma_digits_value_take_succ(s, j - 1);
    }
}

/// The longest run of leading ASCII digits of `text`, read as a decimal
/// number; nothing when `text` has no leading digit or the value does not fit.
pub fn extract_number_prefix(text: &str) -> (r: Option<usize>)
    ensures
        match r {
            Some(v) => number_prefix(text@) == Some(v as nat),
            None => number_prefix(text@) is None || (number_prefix(text@) matches Some(n)
                && n > usize::MAX),
        },
{
    let n = text.unicode_len();
    let mut i: usize = 0;
    let mut val: usize = 0;
    loop
        invariant
            n == text@.len(),
            i <= n,
            forall|j: int| 0 <= j < i ==> is_ascii_digit_char(text@[j]),
            val == digits_value(text@.take(i as int)),
        ensures
            i <= n,
            forall|j: int| 0 <= j < i ==> is_ascii_digit_char(text@[j]),
            val == digits_value(text@.take(i as int)),
            i == n || !is_ascii_digit_char(text@[i as int]),
        decreases n - i,
    {
        if i >= n {
            break;
        }
        let c = text.get_char(i);
        let u = c as u32;
        if u < 48 || u > 57 {
            break;
        }
        let d = (u - 48) as usize;
        proof {
            lemma_digits_value_take_succ(text@, i as int);
        }
        let next = match val.checked_mul(10) {
            Some(v10) => v10.checked_add(d),
            None => None,
        };
        match next {
            Some(v) => {
                val = v;
            },
            None => {
                proof {
                    lemma_digit_prefix_len_bounds(text@);
                    lemma_digit_prefix_len_at_least(text@, i + 1);
                    lemma_digits_value_take_monotone(text@, i + 1, digit_prefix_len(text@));
                }
                return None;
            },
        }
        i += 1;
    }
    proof {
        lemma_digit_prefix_len_is(text@, i as int);
    }
    if i == 0 {
        None
    } else {
        Some(val)
    }
}

/// `s` cut back to at most `n` characters; unchanged when already within `n`.
pub fn truncate_chars(s: String, n: usize) -> (r: String)
    ensures
        r@ == spec_truncate(s@, n as int),
{
    if s.as_str().unicode_len() <= n {
        s
    } else {
        s.as_str().substring_char(0, n).to_owned()
    }
}

} // verus!
