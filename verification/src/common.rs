//! Shared utility code: character classification and text positions.
use vstd::prelude::*;

verus! {

/// Names the result of `char::is_alphabetic`: whether a character is alphabetic.
pub uninterp spec fn alphabetic(c: char) -> bool;

/// Names the result of `char::is_uppercase`: whether a character is uppercase.
pub uninterp spec fn uppercase(c: char) -> bool;

/// Relies on char::is_alphabetic, whose result depends on the character alone.
#[verifier::external_body]
pub fn char_is_alphabetic(c: char) -> (r: bool)
    ensures
        r == alphabetic(c),
{
    c.is_alphabetic()
}

/// Relies on char::is_uppercase, whose result depends on the character alone.
#[verifier::external_body]
pub fn char_is_uppercase(c: char) -> (r: bool)
    ensures
        r == uppercase(c),
{
    c.is_uppercase()
}

/// Whether a name follows the all-uppercase convention that marks an explicit
/// lexer-token rule: every alphabetic character in it is uppercase.
pub open spec fn spec_is_token_id(s: Seq<char>) -> bool {
    forall|i: int| 0 <= i < s.len() && alphabetic(s[i]) ==> uppercase(#[trigger] s[i])
}

/// Whether a name follows the all-uppercase convention that marks an explicit
/// lexer-token rule.
pub fn is_token_id(s: &str) -> (r: bool)
    ensures
        r == spec_is_token_id(s@),
{
    let n = s.unicode_len();
    let mut i: usize = 0;
    while i < n
        invariant
            n == s@.len(),
            i <= n,
            forall|j: int| 0 <= j < i && alphabetic(s@[j]) ==> uppercase(#[trigger] s@[j]),
        decreases n - i,
    {
        let c = s.get_char(i);
        if char_is_alphabetic(c) && !char_is_uppercase(c) {
            assert(!spec_is_token_id(s@));
            return false;
        }
        i = i + 1;
    }
    true
}

/// An increment that stays at the largest `usize` instead of overflowing.
pub open spec fn spec_sat_inc(x: int) -> int {
    if x >= usize::MAX {
        x
    } else {
        x + 1
    }
}

/// The 1-indexed line/column pair for a character offset: one line per
/// newline character before the offset, and the column counted from the
/// last newline (both saturating at the largest `usize`).
pub open spec fn spec_position(text: Seq<char>, offset: int) -> (int, int)
    decreases offset,
{
    if offset <= 0 {
        (1, 1)
    } else {
        let prev = spec_position(text, offset - 1);
        if text[offset - 1] == '\n' {
            (spec_sat_inc(prev.0), 1)
        } else {
            (prev.0, spec_sat_inc(prev.1))
        }
    }
}

/// Returns a 1-indexed line/column pair from a text offset (in characters).
pub fn get_position(text: &str, offset: usize) -> (r: (usize, usize))
    requires
        offset <= text@.len(),
    ensures
        (r.0 as int, r.1 as int) == spec_position(text@, offset as int),
{
    let mut line: usize = 1;
    let mut col: usize = 1;
    let mut i: usize = 0;
    while i < offset
        invariant
            offset <= text@.len(),
            i <= offset,
            (line as int, col as int) == spec_position(text@, i as int),
        decreases offset - i,
    {
        let c = text.get_char(i);
        if c == '\n' {
            if line < usize::MAX {
                line = line + 1;
            }
            col = 1;
        } else {
            if col < usize::MAX {
                col = col + 1;
            }
        }
        i = i + 1;
    }
    (line, col)
}

/// Whether two string slices hold the same characters.
pub fn str_eq(a: &str, b: &str) -> (r: bool)
    ensures
        r == (a@ == b@),
{
    let na = a.unicode_len();
    let nb = b.unicode_len();
    if na != nb {
        assert(a@ != b@) by {
            assert(a@.len() != b@.len());
        }
        return false;
    }
    let mut i: usize = 0;
    while i < na
        invariant
            na == a@.len(),
            na == b@.len(),
            i <= na,
            forall|j: int| 0 <= j < i ==> a@[j] == b@[j],
        decreases na - i,
    {
        if a.get_char(i) != b.get_char(i) {
            assert(a@ != b@);
            return false;
        }
        i = i + 1;
    }
    assert(a@ =~= b@);
    true
}

/// Builds a string from a character vector.  Relies on the standard
/// library's `String` collecting an iterator of characters in order.
#[verifier::external_body]
pub fn chars_to_string(v: &Vec<char>) -> (s: String)
    ensures
        s@ == v@,
{
    v.iter().collect()
}

/// Appends every character of a string slice to a character vector.
pub fn push_str_chars(out: &mut Vec<char>, s: &str)
    ensures
        final(out)@ == old(out)@ + s@,
{
    let n = s.unicode_len();
    let mut i: usize = 0;
    while i < n
        invariant
            n == s@.len(),
            i <= n,
            out@ == old(out)@ + s@.subrange(0, i as int),
        decreases n - i,
    {
        out.push(s.get_char(i));
        assert(out@ =~= old(out)@ + s@.subrange(0, i + 1 as int));
        i = i + 1;
    }
    assert(out@ =~= old(out)@ + s@);
}

} // verus!

verus! {

/// Whether two strings hold the same characters.
pub fn string_eq(a: &String, b: &String) -> (r: bool)
    ensures
        r == (a@ == b@),
{
    str_eq(a.as_str(), b.as_str())
}

} // verus!
