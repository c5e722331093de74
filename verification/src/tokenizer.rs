//! The tokenizer: from a text to its tokens.

use vstd::prelude::*;
use crate::chars::{is_digit, is_quote, is_space, is_word_part, is_word_start, to_digit, to_upper};
use crate::error::{Error, ErrorView};
use crate::scan::{
    closing_quote, decimal_value, digits_end, equal_sign_at, lemma_decimal_value_grows,
    lemma_digits_end_bounds, lemma_lex_ends_with_eof, lemma_token_advances, lex, lex_from,
    mode_after, next_token, star_token, upper_text, word_end, word_token, ScanMode,
};
use crate::text::{chars_of, string_of, with_char};
use crate::token::{lookup_keyword, token_views, Keyword, Token, TokenView};

verus! {

/// The model of what tokenizing returns.
pub open spec fn lexed_view(r: Result<Vec<Token>, Error>) -> Result<Seq<TokenView>, ErrorView> {
    match r {
        Ok(tokens) => Ok(token_views(tokens@)),
        Err(e) => Err(e@),
    }
}

/// The model of one item that the tokenizer hands out.
pub open spec fn item_view(r: Result<Token, Error>) -> Result<TokenView, ErrorView> {
    match r {
        Ok(token) => Ok(token@),
        Err(e) => Err(e@),
    }
}

/// What a tokenizer hands out item by item: the tokens of the text, `Eof`
/// last, or, for a text that has a lexical error, that error alone.
pub open spec fn lex_items(text: Seq<char>) -> Seq<Result<TokenView, ErrorView>> {
    match lex(text) {
        Ok(tokens) => tokens.map_values(|t: TokenView| Ok::<TokenView, ErrorView>(t)),
        Err(e) => seq![Err::<TokenView, ErrorView>(e)],
    }
}

/// Reads the identifier or keyword that begins at `start`.
fn tokenize_word(input: &Vec<char>, start: usize) -> (r: (Token, usize))
    requires
        start < input.len(),
        is_word_start(input[start as int]),
    ensures
        r.1 == word_end(input@, start as int),
        start < r.1 <= input.len(),
        r.0@ == word_token(upper_text(input@.subrange(start as int, r.1 as int))),
{
    let mut word: Vec<char> = Vec::new();
    let mut pos: usize = start;
    while pos < input.len() && is_word_part(input[pos])
        invariant
            start <= pos <= input.len(),
            word_end(input@, pos as int) == word_end(input@, start as int),
            word@ == upper_text(input@.subrange(start as int, pos as int)),
        decreases input.len() - pos,
    {
        word.push(to_upper(input[pos]));
        pos += 1;
        assert(word@ =~= upper_text(input@.subrange(start as int, pos as int)));
    }
    match lookup_keyword(&word) {
        Some(k) => (Token::Keyword(k), pos),
        None => (Token::Identifier(string_of(&word)), pos),
    }
}

/// Reads the number that begins at `start`.
fn tokenize_number(input: &Vec<char>, start: usize) -> (r: Result<(Token, usize), Error>)
    requires
        start < input.len(),
        is_digit(input[start as int]),
    ensures
        ({
            let end = digits_end(input@, start as int);
            let value = decimal_value(input@.subrange(start as int, end));
            match r {
                Ok((token, stop)) => value <= u64::MAX && token@ == TokenView::Number(value as u64)
                    && stop == end && start < stop <= input.len(),
                Err(e) => value > u64::MAX && e@ == ErrorView::LexerError("Number too large"@),
            }
        }),
{
    let mut number: u64 = 0;
    let mut pos: usize = start;
    while pos < input.len() && is_digit(input[pos])
        invariant
            start <= pos <= input.len(),
            digits_end(input@, pos as int) == digits_end(input@, start as int),
            number == decimal_value(input@.subrange(start as int, pos as int)),
        decreases input.len() - pos,
    {
        let digit = to_digit(input[pos]);
        proof {
            assert(input@.subrange(start as int, pos + 1).drop_last() =~= input@.subrange(
                start as int,
                pos as int,
            ));
            lemma_digits_end_bounds(input@, pos + 1);
            lemma_decimal_value_grows(
                input@,
                start as int,
                pos + 1,
                digits_end(input@, start as int),
            );
        }
        let grown = match number.checked_mul(10) {
            Some(tenfold) => tenfold.checked_add(digit),
            None => None,
        };
        match grown {
            Some(n) => {
                number = n;
            },
            None => {
                return Err(Error::LexerError("Number too large".to_owned()));
            },
        }
        pos += 1;
    }
    Ok((Token::Number(number), pos))
}

/// Reads the string literal whose opening quote stands at `start`.
fn tokenize_string(input: &Vec<char>, start: usize, quote: char) -> (r: Result<
    (Token, usize),
    Error,
>)
    requires
        start < input.len(),
        input[start as int] == quote,
    ensures
        match closing_quote(input@, start + 1, quote) {
            Some(end) => r matches Ok((token, stop)) && token@ == TokenView::String(
                input@.subrange(start + 1, end),
            ) && stop == end + 1 && stop <= input.len(),
            None => r matches Err(e) && e@ == ErrorView::LexerError(
                "Unterminated string literal starting with "@.push(quote),
            ),
        },
{
    let mut content = String::new();
    let mut pos: usize = start + 1;
    while pos < input.len()
        invariant
            start < pos <= input.len(),
            closing_quote(input@, pos as int, quote) == closing_quote(input@, start + 1, quote),
            content@ == input@.subrange(start + 1, pos as int),
        decreases input.len() - pos,
    {
        let c = input[pos];
        if c == quote {
            return Ok((Token::String(content), pos + 1));
        }
        content.push(c);
        pos += 1;
        assert(content@ =~= input@.subrange(start + 1, pos as int));
    }
    Err(Error::LexerError(with_char("Unterminated string literal starting with ", quote)))
}

/// Whether `=` stands at `pos`.
fn has_equal_sign(input: &Vec<char>, pos: usize) -> (r: bool)
    ensures
        r == equal_sign_at(input@, pos as int),
{
    pos < input.len() && input[pos] == '='
}

/// Reads the token that begins at `pos`. `star` is what a `*` means there.
fn read_token(input: &Vec<char>, pos: usize, star: Token) -> (r: Result<(Token, usize), Error>)
    requires
        pos < input.len(),
        !is_space(input[pos as int]),
    ensures
        match next_token(input@, pos as int, star@) {
            Ok((token, end)) => r matches Ok((t, stop)) && t@ == token && stop == end && pos < stop
                <= input.len(),
            Err(e) => r matches Err(err) && err@ == e,
        },
{
    proof {
        lemma_token_advances(input@, pos as int, star@);
    }
    let c = input[pos];
    if c == '(' {
        Ok((Token::LeftParentheses, pos + 1))
    } else if c == ')' {
        Ok((Token::RightParentheses, pos + 1))
    } else if c == '>' {
        if has_equal_sign(input, pos + 1) {
            Ok((Token::GreaterThanOrEqual, pos + 2))
        } else {
            Ok((Token::GreaterThan, pos + 1))
        }
    } else if c == '<' {
        if has_equal_sign(input, pos + 1) {
            Ok((Token::LessThanOrEqual, pos + 2))
        } else {
            Ok((Token::LessThan, pos + 1))
        }
    } else if c == '=' {
        Ok((Token::Equal, pos + 1))
    } else if c == '!' {
        if has_equal_sign(input, pos + 1) {
            Ok((Token::NotEqual, pos + 2))
        } else {
            Err(Error::LexerError("Expected '=' after '!'".to_owned()))
        }
    } else if c == '*' {
        Ok((star, pos + 1))
    } else if c == '/' {
        Ok((Token::Divide, pos + 1))
    } else if c == '-' {
        Ok((Token::Minus, pos + 1))
    } else if c == '+' {
        Ok((Token::Plus, pos + 1))
    } else if c == ',' {
        Ok((Token::Comma, pos + 1))
    } else if c == ';' {
        Ok((Token::Semicolon, pos + 1))
    } else if is_quote(c) {
        tokenize_string(input, pos, c)
    } else if is_digit(c) {
        tokenize_number(input, pos)
    } else if is_word_start(c) {
        Ok(tokenize_word(input, pos))
    } else {
        Err(Error::LexerError(with_char("Invalid character: ", c)))
    }
}

/// What a `*` means after the tokens in `emitted`.
fn star_after(mode: ScanMode, emitted: &Vec<Token>) -> (r: Token)
    ensures
        r@ == star_token(mode, token_views(emitted@)),
{
    if mode == ScanMode::AfterSelect && emitted.len() > 0 {
        match &emitted[emitted.len() - 1] {
            Token::Keyword(Keyword::Select) => Token::Wildcard,
            Token::Comma => Token::Wildcard,
            _ => Token::Star,
        }
    } else {
        Token::Star
    }
}

/// The mode after `token`.
fn next_mode(mode: ScanMode, token: &Token) -> (r: ScanMode)
    ensures
        r == mode_after(mode, token@),
{
    match token {
        Token::Keyword(Keyword::Select) => ScanMode::AfterSelect,
        Token::Keyword(Keyword::From) => ScanMode::Default,
        _ => mode,
    }
}

/// Reads all the tokens of `input`.
fn scan_all(input: &Vec<char>) -> (r: Result<Vec<Token>, Error>)
    ensures
        lexed_view(r) == lex(input@),
{
    let mut tokens: Vec<Token> = Vec::new();
    let mut mode = ScanMode::Default;
    let mut pos: usize = 0;
    assert(token_views(tokens@) =~= Seq::empty());
    while pos < input.len()
        invariant
            pos <= input.len(),
            lex_from(input@, pos as int, mode, token_views(tokens@)) == lex(input@),
        decreases input.len() - pos,
    {
        if is_space(input[pos]) {
            pos += 1;
        } else {
            let star = star_after(mode, &tokens);
            match read_token(input, pos, star) {
                Ok((token, end)) => {
                    mode = next_mode(mode, &token);
                    assert(token_views(tokens@.push(token)) =~= token_views(tokens@).push(token@));
                    tokens.push(token);
                    pos = end;
                },
                Err(e) => {
                    return Err(e);
                },
            }
        }
    }
    assert(token_views(tokens@.push(Token::Eof)) =~= token_views(tokens@).push(TokenView::Eof));
    tokens.push(Token::Eof);
    Ok(tokens)
}

/// A tokenizer for one text. It hands the tokens out all at once
/// (`tokenize`) or one by one (`next`); both read the same text and agree.
pub struct Tokenizer {
    input: Vec<char>,
    scanned: bool,
    tokens: Vec<Token>,
    current_token: usize,
}

impl Tokenizer {
    /// Once the text was scanned for `next`, `tokens` holds its tokens, or
    /// nothing if the text has an error.
    #[verifier::type_invariant]
    spec fn valid(self) -> bool {
        &&& self.current_token <= self.tokens.len()
        &&& !self.scanned ==> self.current_token == 0
        &&& match lex(self.input@) {
            Ok(tokens) => (!self.scanned && self.tokens.len() == 0) || token_views(self.tokens@)
                == tokens,
            Err(_) => self.tokens.len() == 0,
        }
    }

    /// The text that is tokenized.
    pub closed spec fn text(self) -> Seq<char> {
        self.input@
    }

    /// How many items `next` has handed out.
    pub closed spec fn yielded(self) -> nat {
        if !self.scanned {
            0
        } else if lex(self.input@) is Err {
            1
        } else {
            self.current_token as nat
        }
    }

    /// A tokenizer for `input`, with nothing handed out yet.
    pub fn new(input: &str) -> (r: Self)
        ensures
            r.text() == input@,
            r.yielded() == 0,
    {
        Tokenizer { input: chars_of(input), scanned: false, tokens: Vec::new(), current_token: 0 }
    }

    /// All the tokens of the text, `Eof` last, or the first lexical error.
    /// The result depends on the text alone, and `next` is not disturbed.
    pub fn tokenize(&mut self) -> (r: Result<Vec<Token>, Error>)
        ensures
            lexed_view(r) == lex(old(self).text()),
            r matches Ok(tokens) ==> tokens.len() > 0 && tokens[tokens.len() - 1]@
                == TokenView::Eof,
            final(self).text() == old(self).text(),
            final(self).yielded() == old(self).yielded(),
    {
        proof {
            lemma_lex_ends_with_eof(self.input@);
        }
        scan_all(&self.input)
    }

    /// The next item of `lex_items`, or `None` when all were handed out:
    /// the tokens in turn, or the lexical error once.
    pub fn next(&mut self) -> (r: Option<Result<Token, Error>>)
        ensures
            final(self).text() == old(self).text(),
            match r {
                Some(item) => old(self).yielded() < lex_items(old(self).text()).len() && item_view(
                    item,
                ) == lex_items(old(self).text())[old(self).yielded() as int]
                    && final(self).yielded() == old(self).yielded() + 1,
                None => old(self).yielded() >= lex_items(old(self).text()).len()
                    && final(self).yielded() == old(self).yielded(),
            },
    {
        proof {
            use_type_invariant(&*self);
        }
        if !self.scanned {
            match scan_all(&self.input) {
                Ok(tokens) => {
                    self.tokens = tokens;
                    self.scanned = true;
                },
                Err(e) => {
                    self.scanned = true;
                    return Some(Err(e));
                },
            }
        }
        if self.current_token >= self.tokens.len() {
            None
        } else {
            let token = self.tokens[self.current_token].clone();
            self.current_token += 1;
            Some(Ok(token))
        }
    }
}

} // verus!
