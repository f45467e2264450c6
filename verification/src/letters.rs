//! Letters and how two of them are compared, with or without regard to case.

use vstd::prelude::*;

verus! {

/// `String::push` appends one character to the end of the string.
pub assume_specification[ String::push ](s: &mut String, ch: char)
    ensures
        final(s)@ == old(s)@.push(ch),
;

/// The characters of a string, in order.
pub fn chars_of(text: &str) -> (chars: Vec<char>)
    ensures
        chars@ == text@,
{
    let mut chars: Vec<char> = Vec::new();
    for c in it: text.chars()
        invariant
            it.seq() == text@,
            chars@ == text@.take(it.index() as int),
    {
        chars.push(c);
    }
    chars
}

/// The first character of the lowercase mapping that `char::to_lowercase`
/// yields for `c`.
pub uninterp spec fn lowercase_of(c: char) -> char;

/// Calls `char::to_lowercase` and takes the first character it yields. The
/// standard library documents that the mapping holds one character or more;
/// which character comes first is left to `lowercase_of`.
#[verifier::external_body]
pub(crate) fn to_lower(c: char) -> (lower: char)
    ensures
        lower == lowercase_of(c),
{
    c.to_lowercase().next().unwrap_or(c)
}

/// Whether two letters count as the same one: exactly equal where case
/// matters, equal after lowercasing both where it does not.
pub open spec fn same_letter(a: char, b: char, match_case: bool) -> bool {
    if match_case {
        a == b
    } else {
        lowercase_of(a) == lowercase_of(b)
    }
}

/// Whether some letter of `letters` is the same letter as `c`.
pub open spec fn holds_letter(letters: Seq<char>, c: char, match_case: bool) -> bool {
    exists|i: int| 0 <= i < letters.len() && same_letter(#[trigger] letters[i], c, match_case)
}

/// Decides `same_letter`.
pub fn is_same_letter(a: char, b: char, match_case: bool) -> (same: bool)
    ensures
        same == same_letter(a, b, match_case),
{
    if match_case {
        a == b
    } else {
        to_lower(a) == to_lower(b)
    }
}

/// Decides `holds_letter` for the characters of a string.
pub fn contains_letter(letters: &str, c: char, match_case: bool) -> (found: bool)
    ensures
        found == holds_letter(letters@, c, match_case),
{
    for l in it: letters.chars()
        invariant
            it.seq() == letters@,
            forall|i: int|
                0 <= i < it.index() ==> !same_letter(#[trigger] letters@[i], c, match_case),
    {
        if is_same_letter(l, c, match_case) {
            return true;
        }
    }
    false
}

} // verus!
