//! The model of tokenizing: which sequence of tokens a text stands for.
//!
//! A text is read from left to right. Spaces are skipped; at every other
//! place `next_token` says which token begins there and where it ends, or
//! why none does. `lex` is the whole sequence, ended by `Eof`, or the first
//! error.

use vstd::prelude::*;
use crate::chars::{digit_value, is_digit, is_quote, is_space, is_word_part, is_word_start, upper};
use crate::error::ErrorView;
use crate::token::{keyword_of, Keyword, TokenView};

verus! {

/// What a `*` means where the scan stands.
#[derive(Clone, Copy, Debug, PartialEq, Eq, Structural)]
pub enum ScanMode {
    /// No `SELECT` is open: `*` multiplies.
    Default,
    /// `SELECT` was read and `FROM` was not yet: `*` may stand for all
    /// columns.
    AfterSelect,
}

/// The text in upper case.
pub open spec fn upper_text(text: Seq<char>) -> Seq<char> {
    text.map_values(|c: char| upper(c))
}

/// Where the run of word characters that holds `pos` ends: the first place
/// at or after `pos` that holds no letter, digit or underscore.
pub open spec fn word_end(text: Seq<char>, pos: int) -> int
    decreases text.len() - pos,
{
    if 0 <= pos < text.len() && is_word_part(text[pos]) {
        word_end(text, pos + 1)
    } else {
        pos
    }
}

/// Where the run of digits that holds `pos` ends.
pub open spec fn digits_end(text: Seq<char>, pos: int) -> int
    decreases text.len() - pos,
{
    if 0 <= pos < text.len() && is_digit(text[pos]) {
        digits_end(text, pos + 1)
    } else {
        pos
    }
}

/// The first place at or after `pos` that holds `quote`.
pub open spec fn closing_quote(text: Seq<char>, pos: int, quote: char) -> Option<int>
    decreases text.len() - pos,
{
    if pos < 0 || pos >= text.len() {
        None
    } else if text[pos] == quote {
        Some(pos)
    } else {
        closing_quote(text, pos + 1, quote)
    }
}

/// The number that a run of digits denotes.
pub open spec fn decimal_value(digits: Seq<char>) -> nat
    decreases digits.len(),
{
    if digits.len() == 0 {
        0
    } else {
        decimal_value(digits.drop_last()) * 10 + digit_value(digits.last())
    }
}

/// The token of a word in upper case: a keyword if it spells one, else an
/// identifier.
pub open spec fn word_token(word: Seq<char>) -> TokenView {
    match keyword_of(word) {
        Some(k) => TokenView::Keyword(k),
        None => TokenView::Identifier(word),
    }
}

/// The token of a `*`: a wildcard only while a `SELECT` is open and the
/// token before it is that `SELECT` or a comma.
pub open spec fn star_token(mode: ScanMode, emitted: Seq<TokenView>) -> TokenView {
    if mode == ScanMode::AfterSelect && emitted.len() > 0 && (emitted.last() == TokenView::Keyword(
        Keyword::Select,
    ) || emitted.last() == TokenView::Comma) {
        TokenView::Wildcard
    } else {
        TokenView::Star
    }
}

/// The mode after `token`: `SELECT` opens, `FROM` closes.
pub open spec fn mode_after(mode: ScanMode, token: TokenView) -> ScanMode {
    if token == TokenView::Keyword(Keyword::Select) {
        ScanMode::AfterSelect
    } else if token == TokenView::Keyword(Keyword::From) {
        ScanMode::Default
    } else {
        mode
    }
}

/// Whether `=` stands at `pos`.
pub open spec fn equal_sign_at(text: Seq<char>, pos: int) -> bool {
    0 <= pos < text.len() && text[pos] == '='
}

/// The token that begins at `pos`, with the place after it, or the reason
/// why none begins there. `star` is what a `*` means at this place.
pub open spec fn next_token(text: Seq<char>, pos: int, star: TokenView) -> Result<
    (TokenView, int),
    ErrorView,
>
    recommends
        0 <= pos < text.len(),
        !is_space(text[pos]),
{
    let c = text[pos];
    if c == '(' {
        Ok((TokenView::LeftParentheses, pos + 1))
    } else if c == ')' {
        Ok((TokenView::RightParentheses, pos + 1))
    } else if c == '>' {
        if equal_sign_at(text, pos + 1) {
            Ok((TokenView::GreaterThanOrEqual, pos + 2))
        } else {
            Ok((TokenView::GreaterThan, pos + 1))
        }
    } else if c == '<' {
        if equal_sign_at(text, pos + 1) {
            Ok((TokenView::LessThanOrEqual, pos + 2))
        } else {
            Ok((TokenView::LessThan, pos + 1))
        }
    } else if c == '=' {
        Ok((TokenView::Equal, pos + 1))
    } else if c == '!' {
        if equal_sign_at(text, pos + 1) {
            Ok((TokenView::NotEqual, pos + 2))
        } else {
            Err(ErrorView::LexerError("Expected '=' after '!'"@))
        }
    } else if c == '*' {
        Ok((star, pos + 1))
    } else if c == '/' {
        Ok((TokenView::Divide, pos + 1))
    } else if c == '-' {
        Ok((TokenView::Minus, pos + 1))
    } else if c == '+' {
        Ok((TokenView::Plus, pos + 1))
    } else if c == ',' {
        Ok((TokenView::Comma, pos + 1))
    } else if c == ';' {
        Ok((TokenView::Semicolon, pos + 1))
    } else if is_quote(c) {
        match closing_quote(text, pos + 1, c) {
            Some(end) => Ok((TokenView::String(text.subrange(pos + 1, end)), end + 1)),
            None => Err(
                ErrorView::LexerError("Unterminated string literal starting with "@.push(c)),
            ),
        }
    } else if is_digit(c) {
        let end = digits_end(text, pos);
        let value = decimal_value(text.subrange(pos, end));
        if value <= u64::MAX {
            Ok((TokenView::Number(value as u64), end))
        } else {
            Err(ErrorView::LexerError("Number too large"@))
        }
    } else if is_word_start(c) {
        let end = word_end(text, pos);
        Ok((word_token(upper_text(text.subrange(pos, end))), end))
    } else {
        Err(ErrorView::LexerError("Invalid character: "@.push(c)))
    }
}

/// A run ends at or after the place where it is asked for, and within the
/// text.
pub proof fn lemma_word_end_bounds(text: Seq<char>, pos: int)
    requires
        0 <= pos <= text.len(),
    ensures
        pos <= word_end(text, pos) <= text.len(),
    decreases text.len() - pos,
{
    if pos < text.len() && is_word_part(text[pos]) {
        lemma_word_end_bounds(text, pos + 1);
    }
}

/// A run of digits ends at or after the place where it is asked for, and
/// within the text.
pub proof fn lemma_digits_end_bounds(text: Seq<char>, pos: int)
    requires
        0 <= pos <= text.len(),
    ensures
        pos <= digits_end(text, pos) <= text.len(),
    decreases text.len() - pos,
{
    if pos < text.len() && is_digit(text[pos]) {
        lemma_digits_end_bounds(text, pos + 1);
    }
}

/// The closing quote, where there is one, stands at or after `pos`, holds
/// the quote, and no place between holds it.
pub proof fn lemma_closing_quote(text: Seq<char>, pos: int, quote: char)
    requires
        0 <= pos <= text.len(),
    ensures
        match closing_quote(text, pos, quote) {
            Some(end) => pos <= end < text.len() && text[end] == quote && forall|i: int|
                pos <= i < end ==> text[i] != quote,
            None => forall|i: int| pos <= i < text.len() ==> text[i] != quote,
        },
    decreases text.len() - pos,
{
    if pos < text.len() && text[pos] != quote {
        lemma_closing_quote(text, pos + 1, quote);
    }
}

/// A token is never empty and ends within the text.
pub proof fn lemma_token_advances(text: Seq<char>, pos: int, star: TokenView)
    requires
        0 <= pos < text.len(),
    ensures
        next_token(text, pos, star) matches Ok((_, end)) ==> pos < end <= text.len(),
{
    lemma_word_end_bounds(text, pos + 1);
    lemma_digits_end_bounds(text, pos + 1);
    lemma_closing_quote(text, pos + 1, text[pos]);
}

/// The tokens of `text` from `pos` on, after those in `emitted`: the whole
/// sequence with `Eof` at its end, or the first error.
pub open spec fn lex_from(
    text: Seq<char>,
    pos: int,
    mode: ScanMode,
    emitted: Seq<TokenView>,
) -> Result<Seq<TokenView>, ErrorView>
    decreases text.len() - pos,
{
    if pos < 0 || pos >= text.len() {
        Ok(emitted.push(TokenView::Eof))
    } else if is_space(text[pos]) {
        lex_from(text, pos + 1, mode, emitted)
    } else {
        match next_token(text, pos, star_token(mode, emitted)) {
            Ok((token, end)) => {
                proof {
                    lemma_token_advances(text, pos, star_token(mode, emitted));
                }
                lex_from(text, end, mode_after(mode, token), emitted.push(token))
            },
            Err(e) => Err(e),
        }
    }
}

/// The tokens of `text`, ended by `Eof`, or the first lexical error.
pub open spec fn lex(text: Seq<char>) -> Result<Seq<TokenView>, ErrorView> {
    lex_from(text, 0, ScanMode::Default, Seq::empty())
}

/// A longer run of digits denotes no smaller number.
pub proof fn lemma_decimal_value_grows(text: Seq<char>, start: int, mid: int, end: int)
    requires
        0 <= start <= mid <= end <= text.len(),
    ensures
        decimal_value(text.subrange(start, mid)) <= decimal_value(text.subrange(start, end)),
    decreases end - mid,
{
    if mid < end {
        lemma_decimal_value_grows(text, start, mid, end - 1);
        assert(text.subrange(start, end).drop_last() =~= text.subrange(start, end - 1));
    }
}

/// Where the scan goes on from `emitted`, the tokens that come out begin
/// with `emitted` and end with the only `Eof` that was not in `emitted`.
pub proof fn lemma_lex_from_ends_with_eof(
    text: Seq<char>,
    pos: int,
    mode: ScanMode,
    emitted: Seq<TokenView>,
)
    requires
        0 <= pos,
    ensures
        lex_from(text, pos, mode, emitted) matches Ok(tokens) ==> {
            &&& tokens.len() > emitted.len()
            &&& tokens.last() == TokenView::Eof
            &&& forall|i: int| 0 <= i < emitted.len() ==> tokens[i] == emitted[i]
            &&& forall|i: int| emitted.len() <= i < tokens.len() - 1 ==> tokens[i] != TokenView::Eof
        },
    decreases text.len() - pos,
{
    if pos >= text.len() {
    } else if is_space(text[pos]) {
        lemma_lex_from_ends_with_eof(text, pos + 1, mode, emitted);
    } else {
        let star = star_token(mode, emitted);
        lemma_token_advances(text, pos, star);
        if let Ok((token, end)) = next_token(text, pos, star) {
            lemma_lex_from_ends_with_eof(text, end, mode_after(mode, token), emitted.push(token));
        }
    }
}

/// The tokens of a text end with `Eof`, and `Eof` stands nowhere else
/// among them.
pub proof fn lemma_lex_ends_with_eof(text: Seq<char>)
    ensures
        lex(text) matches Ok(tokens) ==> {
            &&& tokens.len() > 0
            &&& tokens.last() == TokenView::Eof
            &&& forall|i: int| 0 <= i < tokens.len() - 1 ==> tokens[i] != TokenView::Eof
        },
{
    lemma_lex_from_ends_with_eof(text, 0, ScanMode::Default, Seq::empty());
}

} // verus!
