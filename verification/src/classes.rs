//! Character classes of the source language and the two literal checks:
//! one for identifiers, one for string-literal interiors.

use vstd::prelude::*;

verus! {

/// c is an ASCII decimal digit.
pub open spec fn is_digit_char(c: char) -> bool {
    ('0' as u32) <= (c as u32) && (c as u32) <= ('9' as u32)
}

/// c is an ASCII lowercase letter.
pub open spec fn is_lower_char(c: char) -> bool {
    ('a' as u32) <= (c as u32) && (c as u32) <= ('z' as u32)
}

/// c is an ASCII uppercase letter.
pub open spec fn is_upper_char(c: char) -> bool {
    ('A' as u32) <= (c as u32) && (c as u32) <= ('Z' as u32)
}

/// Characters allowed inside a string literal: lowercase letters, digits,
/// '.', space, '=' and '-'.
pub open spec fn is_allowed_string_char(c: char) -> bool {
    is_lower_char(c) || is_digit_char(c) || c == '.' || c == ' ' || c == '=' || c == '-'
}

/// A valid identifier literal: one or more lowercase letters.
pub open spec fn is_valid_id(s: Seq<char>) -> bool {
    s.len() >= 1 && forall|i: int| 0 <= i < s.len() ==> is_lower_char(#[trigger] s[i])
}

/// A valid string-literal interior: nonempty, every character allowed.
pub open spec fn is_valid_string_interior(s: Seq<char>) -> bool {
    s.len() >= 1 && forall|i: int| 0 <= i < s.len() ==> is_allowed_string_char(#[trigger] s[i])
}

/// Some character of s is an uppercase ASCII letter.
pub open spec fn has_upper(s: Seq<char>) -> bool {
    exists|i: int| 0 <= i < s.len() && is_upper_char(#[trigger] s[i])
}

/// The identifier check applied to every identifier at its grammatical use:
/// the literal must consist of one or more lowercase letters.
pub fn id_check(s: &str) -> (r: bool)
    ensures
        r == is_valid_id(s@),
{
    let n = s.unicode_len();
    if n == 0 {
        return false;
    }
    let mut i: usize = 0;
    while i < n
        invariant
            n == s@.len(),
            0 <= i <= n,
            forall|j: int| 0 <= j < i ==> is_lower_char(#[trigger] s@[j]),
        decreases n - i,
    {
        let c = s.get_char(i);
        let u = c as u32;
        if !(('a' as u32) <= u && u <= ('z' as u32)) {
            return false;
        }
        i = i + 1;
    }
    true
}

/// The string-literal check applied to the interior of each quoted literal.
pub fn string_check(s: &str) -> (r: bool)
    ensures
        r == is_valid_string_interior(s@),
{
    let n = s.unicode_len();
    if n == 0 {
        return false;
    }
    let mut i: usize = 0;
    while i < n
        invariant
            n == s@.len(),
            0 <= i <= n,
            forall|j: int| 0 <= j < i ==> is_allowed_string_char(#[trigger] s@[j]),
        decreases n - i,
    {
        let c = s.get_char(i);
        if !allowed_string_char(c) {
            return false;
        }
        i = i + 1;
    }
    true
}

/// Whether one character may stand inside a string literal.
pub fn allowed_string_char(c: char) -> (r: bool)
    ensures
        r == is_allowed_string_char(c),
{
    let u = c as u32;
    (('a' as u32) <= u && u <= ('z' as u32)) || (('0' as u32) <= u && u <= ('9' as u32)) || c == '.'
        || c == ' ' || c == '=' || c == '-'
}

/// Whether one character is an ASCII decimal digit.
pub fn digit_char(c: char) -> (r: bool)
    ensures
        r == is_digit_char(c),
{
    let u = c as u32;
    ('0' as u32) <= u && u <= ('9' as u32)
}

/// The string-literal check as the scanner applies it: v holds a whole
/// quoted literal and its interior (both delimiters stripped) must be a
/// valid string interior.
pub fn quoted_interior_ok(v: &Vec<char>) -> (r: bool)
    requires
        v@.len() >= 2,
    ensures
        r == is_valid_string_interior(v@.subrange(1, v@.len() - 1)),
{
    let n = v.len();
    if n == 2 {
        return false;
    }
    let mut i: usize = 1;
    while i < n - 1
        invariant
            2 <= n,
            n == v@.len(),
            1 <= i <= n - 1,
            forall|j: int| 1 <= j < i ==> is_allowed_string_char(#[trigger] v@[j]),
        decreases n - i,
    {
        if !allowed_string_char(v[i]) {
            proof {
                assert(v@.subrange(1, v@.len() - 1)[i - 1] == v@[i as int]);
            }
            return false;
        }
        i = i + 1;
    }
    proof {
        let interior = v@.subrange(1, v@.len() - 1);
        assert forall|j: int| 0 <= j < interior.len() implies is_allowed_string_char(
            #[trigger] interior[j],
        ) by {
            assert(interior[j] == v@[j + 1]);
        }
    }
    true
}

/// Whether a buffered run of characters holds an uppercase ASCII letter.
pub fn contains_upper(v: &Vec<char>) -> (r: bool)
    ensures
        r == has_upper(v@),
{
    let mut i: usize = 0;
    while i < v.len()
        invariant
            0 <= i <= v@.len(),
            forall|j: int| 0 <= j < i ==> !is_upper_char(#[trigger] v@[j]),
        decreases v@.len() - i,
    {
        let u = v[i] as u32;
        if ('A' as u32) <= u && u <= ('Z' as u32) {
            return true;
        }
        i = i + 1;
    }
    false
}

} // verus!
