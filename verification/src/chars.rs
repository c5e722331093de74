//! The classes of characters that the tokenizer tells apart.

use vstd::prelude::*;

verus! {

/// Space, tab, line feed and carriage return: skipped between tokens.
#[verifier::allow_in_spec]
pub fn is_space(c: char) -> bool
    returns
        c == ' ' || c == '\t' || c == '\n' || c == '\r',
{
    c == ' ' || c == '\t' || c == '\n' || c == '\r'
}

/// An ASCII digit.
#[verifier::allow_in_spec]
pub fn is_digit(c: char) -> bool
    returns
        '0' <= c && c <= '9',
{
    '0' <= c && c <= '9'
}

/// An ASCII letter in lower case.
#[verifier::allow_in_spec]
pub fn is_lower(c: char) -> bool
    returns
        'a' <= c && c <= 'z',
{
    'a' <= c && c <= 'z'
}

/// An ASCII letter.
#[verifier::allow_in_spec]
pub fn is_letter(c: char) -> bool
    returns
        is_lower(c) || ('A' <= c && c <= 'Z'),
{
    is_lower(c) || ('A' <= c && c <= 'Z')
}

/// A character that may begin an identifier or a keyword.
#[verifier::allow_in_spec]
pub fn is_word_start(c: char) -> bool
    returns
        is_letter(c) || c == '_',
{
    is_letter(c) || c == '_'
}

/// A character that may continue an identifier or a keyword.
#[verifier::allow_in_spec]
pub fn is_word_part(c: char) -> bool
    returns
        is_letter(c) || is_digit(c) || c == '_',
{
    is_letter(c) || is_digit(c) || c == '_'
}

/// A character that opens and closes a string literal.
#[verifier::allow_in_spec]
pub fn is_quote(c: char) -> bool
    returns
        c == '\'' || c == '"',
{
    c == '\'' || c == '"'
}

/// The character in upper case: an ASCII letter in lower case becomes its
/// capital, every other character stays.
pub open spec fn upper(c: char) -> char {
    if is_lower(c) {
        ((c as u8) - 32) as char
    } else {
        c
    }
}

/// The character in upper case.
pub fn to_upper(c: char) -> (r: char)
    ensures
        r == upper(c),
{
    if is_lower(c) {
        ((c as u8) - 32) as char
    } else {
        c
    }
}

/// The value of a digit.
pub open spec fn digit_value(c: char) -> nat
    recommends
        is_digit(c),
{
    (c as u8 - 48) as nat
}

/// The value of a digit.
pub fn to_digit(c: char) -> (r: u64)
    requires
        is_digit(c),
    ensures
        r == digit_value(c),
{
    ((c as u8) - 48) as u64
}

} // verus!
