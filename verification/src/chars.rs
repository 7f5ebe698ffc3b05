//! Character classes of the scanner.
//!
//! ASCII characters are classified here, by range. For a character outside
//! ASCII the only question is whether it may stand in an identifier, and that
//! is std's answer (`char::is_alphabetic`, `char::is_alphanumeric`).

use vstd::prelude::*;

verus! {

/// What `char::is_alphabetic` returns for `c`: whether `c` has the Unicode
/// property Alphabetic.
pub uninterp spec fn unicode_alphabetic(c: char) -> bool;

/// What `char::is_alphanumeric` returns for `c`: whether `c` is alphabetic or
/// numeric in Unicode's sense.
pub uninterp spec fn unicode_alphanumeric(c: char) -> bool;

/// `char::is_alphabetic` depends on its argument alone; nothing more is
/// claimed of it than that its result is `unicode_alphabetic`.
pub assume_specification[ char::is_alphabetic ](c: char) -> (b: bool)
    ensures
        b == unicode_alphabetic(c),
;

/// `char::is_alphanumeric` depends on its argument alone; nothing more is
/// claimed of it than that its result is `unicode_alphanumeric`.
pub assume_specification[ char::is_alphanumeric ](c: char) -> (b: bool)
    ensures
        b == unicode_alphanumeric(c),
;

/// A character of ASCII.
pub open spec fn is_ascii(c: char) -> bool {
    c <= '\x7f'
}

/// A letter of ASCII, `a` to `z` or `A` to `Z`.
pub open spec fn is_ascii_letter(c: char) -> bool {
    ('a' <= c && c <= 'z') || ('A' <= c && c <= 'Z')
}

/// A decimal digit, `0` to `9`.
pub open spec fn is_digit(c: char) -> bool {
    '0' <= c && c <= '9'
}

/// Space, tab, carriage return and newline.
pub open spec fn is_whitespace(c: char) -> bool {
    c == ' ' || c == '\t' || c == '\r' || c == '\n'
}

/// The characters that are reported as unexpected.
pub open spec fn is_blacklisted(c: char) -> bool {
    c == '$' || c == '#' || c == '@' || c == '^' || c == '%'
}

/// A letter: an ASCII letter, or a character outside ASCII that Unicode
/// calls alphabetic.
pub open spec fn is_alphabetic(c: char) -> bool {
    if is_ascii(c) {
        is_ascii_letter(c)
    } else {
        unicode_alphabetic(c)
    }
}

/// A letter or a digit: ASCII letters and digits, or a character outside
/// ASCII that Unicode calls alphabetic or numeric.
pub open spec fn is_alphanumeric(c: char) -> bool {
    if is_ascii(c) {
        is_ascii_letter(c) || is_digit(c)
    } else {
        unicode_alphanumeric(c)
    }
}

/// A character that may begin an identifier.
pub open spec fn is_identifier_start(c: char) -> bool {
    is_alphabetic(c) || c == '_'
}

/// A character that may continue an identifier.
pub open spec fn is_identifier_part(c: char) -> bool {
    is_alphanumeric(c) || c == '_'
}

/// Whether `c` is a decimal digit.
pub fn digit(c: char) -> (b: bool)
    ensures
        b == is_digit(c),
{
    '0' <= c && c <= '9'
}

/// Whether `c` is whitespace.
pub fn whitespace(c: char) -> (b: bool)
    ensures
        b == is_whitespace(c),
{
    c == ' ' || c == '\t' || c == '\r' || c == '\n'
}

/// Whether `c` is a letter.
pub fn alphabetic(c: char) -> (b: bool)
    ensures
        b == is_alphabetic(c),
{
    if c <= '\x7f' {
        ('a' <= c && c <= 'z') || ('A' <= c && c <= 'Z')
    } else {
        c.is_alphabetic()
    }
}

/// Whether `c` is a letter or a digit.
pub fn alphanumeric(c: char) -> (b: bool)
    ensures
        b == is_alphanumeric(c),
{
    if c <= '\x7f' {
        ('a' <= c && c <= 'z') || ('A' <= c && c <= 'Z') || ('0' <= c && c <= '9')
    } else {
        c.is_alphanumeric()
    }
}

/// Whether `c` may begin an identifier.
pub fn identifier_start(c: char) -> (b: bool)
    ensures
        b == is_identifier_start(c),
{
    c == '_' || alphabetic(c)
}

/// Whether `c` may continue an identifier.
pub fn identifier_part(c: char) -> (b: bool)
    ensures
        b == is_identifier_part(c),
{
    c == '_' || alphanumeric(c)
}

} // verus!
