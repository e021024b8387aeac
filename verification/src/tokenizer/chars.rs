//! Character classification for the lexer, and the one string-building
//! primitive the crate trusts.
//!
//! ASCII classification is written out exactly. For characters beyond ASCII
//! the Unicode properties are named by uninterpreted functions and supplied
//! by `char`'s own methods.
use vstd::prelude::*;
use vstd::string::StrSliceExecFns;

verus! {

/// Whether a character beyond ASCII has the Unicode `Alphabetic` property.
pub uninterp spec fn unicode_alphabetic(c: char) -> bool;

/// Whether a character beyond ASCII is in one of the Unicode digit
/// categories.
pub uninterp spec fn unicode_numeric(c: char) -> bool;

/// Whether a character beyond ASCII has the Unicode `White_Space` property.
pub uninterp spec fn unicode_whitespace(c: char) -> bool;

/// An ASCII letter.
pub open spec fn ascii_letter(c: char) -> bool {
    ('a' <= c && c <= 'z') || ('A' <= c && c <= 'Z')
}

/// An ASCII decimal digit.
pub open spec fn ascii_digit(c: char) -> bool {
    '0' <= c && c <= '9'
}

/// An ASCII hexadecimal digit.
pub open spec fn ascii_hex_digit(c: char) -> bool {
    ascii_digit(c) || ('a' <= c && c <= 'f') || ('A' <= c && c <= 'F')
}

/// A character the lexer treats as alphabetic: within ASCII exactly the
/// letters, beyond ASCII the Unicode `Alphabetic` property.
pub open spec fn alpha_char(c: char) -> bool {
    if (c as u32) < 128 {
        ascii_letter(c)
    } else {
        unicode_alphabetic(c)
    }
}

/// A character the lexer treats as alphanumeric: an alphabetic character or
/// one in a digit category — within ASCII exactly the letters and decimal
/// digits.
pub open spec fn alnum_char(c: char) -> bool {
    alpha_char(c) || (if (c as u32) < 128 {
        ascii_digit(c)
    } else {
        unicode_numeric(c)
    })
}

/// A character the lexer treats as whitespace: within ASCII the space and
/// the five control characters with the `White_Space` property, beyond
/// ASCII the Unicode classification.
pub open spec fn space_char(c: char) -> bool {
    if (c as u32) < 128 {
        c == ' ' || c == '\t' || c == '\n' || c == '\r' || c == '\u{b}' || c == '\u{c}'
    } else {
        unicode_whitespace(c)
    }
}

/// Relies on char::is_alphabetic: true exactly for characters with the
/// Unicode `Alphabetic` property, which within ASCII are the letters
/// `a`-`z` and `A`-`Z`.
#[verifier::external_body]
pub fn char_is_alphabetic(c: char) -> (r: bool)
    ensures
        r == alpha_char(c),
        (c as u32) >= 128 ==> r == unicode_alphabetic(c),
{
    c.is_alphabetic()
}

/// Relies on char::is_alphanumeric: true exactly for characters that are
/// alphabetic or in a Unicode digit category, which within ASCII are the
/// letters and the digits `0`-`9`.
#[verifier::external_body]
pub fn char_is_alphanumeric(c: char) -> (r: bool)
    ensures
        r == alnum_char(c),
        (c as u32) >= 128 && !unicode_alphabetic(c) ==> r == unicode_numeric(c),
{
    c.is_alphanumeric()
}

/// Relies on char::is_whitespace: true exactly for characters with the
/// Unicode `White_Space` property, which within ASCII are the space and the
/// control characters U+0009 to U+000D.
#[verifier::external_body]
pub fn char_is_whitespace(c: char) -> (r: bool)
    ensures
        r == space_char(c),
        (c as u32) >= 128 ==> r == unicode_whitespace(c),
{
    c.is_whitespace()
}

/// Relies on String::push: appends one character at the end of the string.
#[verifier::external_body]
pub fn push_char(s: &mut String, c: char)
    ensures
        final(s)@ == old(s)@ + seq![c],
{
    s.push(c)
}

/// The characters of a string, in order, as a vector the lexer can index.
pub fn chars_of(s: &str) -> (v: Vec<char>)
    ensures
        v@ == s@,
{
    let n = s.unicode_len();
    let mut v: Vec<char> = Vec::new();
    let mut i: usize = 0;
    while i < n
        invariant
            i <= n,
            n == s@.len(),
            v@ == s@.subrange(0, i as int),
        decreases n - i,
    {
        v.push(s.get_char(i));
        i = i + 1;
        proof {
            assert(v@ =~= s@.subrange(0, i as int));
        }
    }
    proof {
        assert(v@ =~= s@);
    }
    v
}


/// Whether two string slices hold the same characters.
pub fn str_eq(a: &str, b: &str) -> (r: bool)
    ensures
        r == (a@ == b@),
{
    let n = a.unicode_len();
    let m = b.unicode_len();
    if n != m {
        return false;
    }
    let mut i: usize = 0;
    while i < n
        invariant
            i <= n,
            n == a@.len(),
            n == b@.len(),
            forall|j: int| 0 <= j < i ==> a@[j] == b@[j],
        decreases n - i,
    {
        if a.get_char(i) != b.get_char(i) {
            return false;
        }
        i = i + 1;
    }
    proof {
        assert(a@ =~= b@);
    }
    true
}

} // verus!
