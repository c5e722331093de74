//! What holds of every text and of every sequence of tokens.

use vstd::prelude::*;
use crate::chars::{is_digit, is_lower, is_quote, is_space, is_word_part, is_word_start, upper};
use crate::error::ErrorView;
use crate::scan::{
    closing_quote, decimal_value, digits_end, equal_sign_at, lemma_closing_quote,
    lemma_digits_end_bounds, lemma_token_advances, lemma_word_end_bounds, lex, lex_from,
    mode_after, next_token, star_token, upper_text, word_end, ScanMode,
};
use crate::grammar::{
    attach_key, binary, binary_expression, binary_operator, binary_precedence, binary_tail,
    column_definition, column_named, expect_keyword, expect_token, expression, expression_items,
    expressions_list, foreign_key, is_terminator, lemma_column_advances,
    lemma_expression_advances, lemma_foreign_key_advances, name_at, order_term, order_terms,
    prefix_expression, statement, table_items, token_at, where_clause, with_constraint,
};
use crate::statement::{ConstraintView, ExpressionView, TableColumnView};
use crate::statement_of;
use crate::token::{keyword_of, Keyword, TokenView};

verus! {

/// A run of digits that denotes more than `u64::MAX` is a lexical error
/// wherever the scan comes upon it, whatever follows it.
pub proof fn lemma_number_too_large(
    text: Seq<char>,
    pos: int,
    mode: ScanMode,
    emitted: Seq<TokenView>,
)
    requires
        0 <= pos < text.len(),
        is_digit(text[pos]),
        decimal_value(text.subrange(pos, digits_end(text, pos))) > u64::MAX,
    ensures
        lex_from(text, pos, mode, emitted) == Err::<Seq<TokenView>, ErrorView>(
            ErrorView::LexerError("Number too large"@),
        ),
{
}

/// A text that begins with a run of digits that denotes more than
/// `u64::MAX` has no tokens.
pub proof fn lemma_leading_number_too_large(text: Seq<char>)
    requires
        0 < text.len(),
        is_digit(text[0]),
        decimal_value(text.subrange(0, digits_end(text, 0))) > u64::MAX,
    ensures
        lex(text) == Err::<Seq<TokenView>, ErrorView>(ErrorView::LexerError("Number too large"@)),
{
    lemma_number_too_large(text, 0, ScanMode::Default, Seq::empty());
}

/// The quote of the string literal that is open before place `i`: the
/// quote that opened it, if the text up to `i` holds an opening quote
/// without its closing one.
pub open spec fn open_quote(text: Seq<char>, i: int) -> Option<char>
    decreases i,
{
    if i <= 0 || i > text.len() {
        None
    } else {
        match open_quote(text, i - 1) {
            None => if is_quote(text[i - 1]) {
                Some(text[i - 1])
            } else {
                None
            },
            Some(quote) => if text[i - 1] == quote {
                None
            } else {
                Some(quote)
            },
        }
    }
}

/// The text with every character outside its string literals in upper
/// case. What stands between quotes stays as it is.
pub open spec fn fold_case(text: Seq<char>) -> Seq<char> {
    Seq::new(
        text.len(),
        |i: int|
            if open_quote(text, i) is None {
                upper(text[i])
            } else {
                text[i]
            },
    )
}

/// Folding the case moves no quote: the same literals are open at the
/// same places.
pub proof fn lemma_fold_keeps_quotes(text: Seq<char>, i: int)
    requires
        0 <= i <= text.len(),
    ensures
        open_quote(fold_case(text), i) == open_quote(text, i),
    decreases i,
{
    if i > 0 {
        lemma_fold_keeps_quotes(text, i - 1);
    }
}

/// Within a string literal that `quote` opened, `quote` stays open up to
/// the closing quote, and none is open behind it. Without a closing quote
/// it stays open to the end of the text.
pub proof fn lemma_literal_is_open(text: Seq<char>, start: int, quote: char, i: int)
    requires
        0 <= start < i <= text.len(),
        open_quote(text, start) is None,
        text[start] == quote,
        is_quote(quote),
        match closing_quote(text, start + 1, quote) {
            Some(end) => i <= end + 1,
            None => true,
        },
    ensures
        match closing_quote(text, start + 1, quote) {
            Some(end) => open_quote(text, i) == if i == end + 1 {
                None
            } else {
                Some(quote)
            },
            None => open_quote(text, i) == Some(quote),
        },
    decreases i,
{
    lemma_closing_quote(text, start + 1, quote);
    if i > start + 1 {
        lemma_literal_is_open(text, start, quote, i - 1);
    }
}

/// Folding the case leaves the end of a run of digits where it is.
pub proof fn lemma_fold_keeps_digits(text: Seq<char>, pos: int)
    requires
        0 <= pos <= text.len(),
        open_quote(text, pos) is None,
    ensures
        digits_end(fold_case(text), pos) == digits_end(text, pos),
        open_quote(text, digits_end(text, pos)) is None,
        fold_case(text).subrange(pos, digits_end(text, pos)) == text.subrange(
            pos,
            digits_end(text, pos),
        ),
    decreases text.len() - pos,
{
    lemma_digits_end_bounds(text, pos);
    if pos < text.len() && is_digit(text[pos]) {
        lemma_fold_keeps_digits(text, pos + 1);
        lemma_digits_end_bounds(text, pos + 1);
        let end = digits_end(text, pos);
        assert(fold_case(text).subrange(pos, end) =~= seq![text[pos]] + fold_case(text).subrange(
            pos + 1,
            end,
        ));
        assert(text.subrange(pos, end) =~= seq![text[pos]] + text.subrange(pos + 1, end));
    } else {
        assert(fold_case(text).subrange(pos, pos) =~= text.subrange(pos, pos));
    }
}

/// Folding the case leaves the end of a word where it is, and the word in
/// upper case is the same.
pub proof fn lemma_fold_keeps_words(text: Seq<char>, pos: int)
    requires
        0 <= pos <= text.len(),
        open_quote(text, pos) is None,
    ensures
        word_end(fold_case(text), pos) == word_end(text, pos),
        open_quote(text, word_end(text, pos)) is None,
        upper_text(fold_case(text).subrange(pos, word_end(text, pos))) == upper_text(
            text.subrange(pos, word_end(text, pos)),
        ),
    decreases text.len() - pos,
{
    lemma_word_end_bounds(text, pos);
    if pos < text.len() && is_word_part(text[pos]) {
        lemma_fold_keeps_words(text, pos + 1);
        lemma_word_end_bounds(text, pos + 1);
        let end = word_end(text, pos);
        assert(upper_text(fold_case(text).subrange(pos, end)) =~= seq![upper(text[pos])]
            + upper_text(fold_case(text).subrange(pos + 1, end)));
        assert(upper_text(text.subrange(pos, end)) =~= seq![upper(text[pos])] + upper_text(
            text.subrange(pos + 1, end),
        ));
    } else {
        assert(upper_text(fold_case(text).subrange(pos, pos)) =~= upper_text(
            text.subrange(pos, pos),
        ));
    }
}

/// Folding the case leaves a string literal as it is.
pub proof fn lemma_fold_keeps_literal(text: Seq<char>, pos: int)
    requires
        0 <= pos < text.len(),
        open_quote(text, pos) is None,
        is_quote(text[pos]),
    ensures
        closing_quote(fold_case(text), pos + 1, text[pos]) == closing_quote(
            text,
            pos + 1,
            text[pos],
        ),
        closing_quote(text, pos + 1, text[pos]) matches Some(end) ==> open_quote(text, end + 1)
            is None && fold_case(text).subrange(pos + 1, end) == text.subrange(pos + 1, end),
{
    let quote = text[pos];
    let folded = fold_case(text);
    lemma_closing_quote(text, pos + 1, quote);
    lemma_closing_quote(folded, pos + 1, quote);
    match closing_quote(text, pos + 1, quote) {
        Some(end) => {
            assert forall|i: int| pos < i <= end implies folded[i] == text[i] by {
                lemma_literal_is_open(text, pos, quote, i);
            }
            lemma_literal_is_open(text, pos, quote, end + 1);
            assert(folded.subrange(pos + 1, end) =~= text.subrange(pos + 1, end));
        },
        None => {
            assert forall|i: int| pos < i < text.len() implies folded[i] == text[i] by {
                lemma_literal_is_open(text, pos, quote, i);
            }
        },
    }
}

/// Folding the case changes no token: from a place outside the string
/// literals on, the folded text has the tokens of the text itself.
pub proof fn lemma_fold_keeps_tokens(
    text: Seq<char>,
    pos: int,
    mode: ScanMode,
    emitted: Seq<TokenView>,
)
    requires
        0 <= pos <= text.len(),
        open_quote(text, pos) is None,
    ensures
        lex_from(fold_case(text), pos, mode, emitted) == lex_from(text, pos, mode, emitted),
    decreases text.len() - pos,
{
    let folded = fold_case(text);
    if pos < text.len() {
        let c = text[pos];
        assert(folded[pos] == upper(c));
        if is_space(c) {
            lemma_fold_keeps_tokens(text, pos + 1, mode, emitted);
        } else {
            let star = star_token(mode, emitted);
            lemma_token_advances(text, pos, star);
            lemma_fold_keeps_token(text, pos, star);
            if let Ok((token, end)) = next_token(text, pos, star) {
                lemma_fold_keeps_tokens(text, end, mode_after(mode, token), emitted.push(token));
            }
        }
    }
}

/// Folding the case changes neither the token that begins at a place
/// outside the string literals nor the place where it ends, and no
/// literal is open behind it.
pub proof fn lemma_fold_keeps_token(text: Seq<char>, pos: int, star: TokenView)
    requires
        0 <= pos < text.len(),
        open_quote(text, pos) is None,
        !is_space(text[pos]),
    ensures
        next_token(fold_case(text), pos, star) == next_token(text, pos, star),
        next_token(text, pos, star) matches Ok((_, end)) ==> open_quote(text, end) is None,
{
    let folded = fold_case(text);
    let c = text[pos];
    assert(folded[pos] == upper(c));
    if is_quote(c) {
        lemma_fold_keeps_literal(text, pos);
    } else if is_digit(c) {
        lemma_fold_keeps_digits(text, pos);
    } else if is_word_start(c) {
        lemma_fold_keeps_words(text, pos);
    } else {
        assert(open_quote(text, pos + 1) is None);
        if pos + 1 < text.len() {
            assert(folded[pos + 1] == upper(text[pos + 1]));
            assert(equal_sign_at(folded, pos + 1) == equal_sign_at(text, pos + 1));
            if equal_sign_at(text, pos + 1) {
                assert(open_quote(text, pos + 2) is None);
            }
        }
    }
}

/// Case does not matter outside string literals: a text and the same text
/// with everything outside its string literals in upper case have the
/// same tokens, or the same lexical error.
pub proof fn lemma_case_insensitive(text: Seq<char>)
    ensures
        lex(fold_case(text)) == lex(text),
{
    lemma_fold_keeps_tokens(text, 0, ScanMode::Default, Seq::empty());
}

/// Case does not matter outside string literals: a text and the same text
/// with everything outside its string literals in upper case stand for
/// the same statement, or fail with the same error.
pub proof fn lemma_case_insensitive_statement(text: Seq<char>)
    ensures
        statement_of(fold_case(text)) == statement_of(text),
{
    lemma_case_insensitive(text);
}

/// A word in upper case: not empty, made of letters, digits and
/// underscores, with no letter in lower case.
pub open spec fn is_upper_word(word: Seq<char>) -> bool {
    &&& word.len() > 0
    &&& forall|i: int|
        0 <= i < word.len() ==> is_word_part(#[trigger] word[i]) && !is_lower(word[i])
}

/// What holds of a token that the tokenizer hands out: an identifier is a
/// word in upper case that spells no keyword.
pub open spec fn is_normal(token: TokenView) -> bool {
    token matches TokenView::Identifier(word) ==> is_upper_word(word) && keyword_of(word) is None
}

/// Every character of a run of word characters is one.
pub proof fn lemma_word_run(text: Seq<char>, pos: int, i: int)
    requires
        0 <= pos <= i < word_end(text, pos),
    ensures
        is_word_part(text[i]),
        i < text.len(),
    decreases text.len() - pos,
{
    if pos < text.len() && is_word_part(text[pos]) {
        if pos < i {
            lemma_word_end_bounds(text, pos + 1);
            lemma_word_run(text, pos + 1, i);
        }
    }
}

/// Where the scan goes on from normal tokens, only normal tokens come
/// out.
pub proof fn lemma_lex_from_normal(
    text: Seq<char>,
    pos: int,
    mode: ScanMode,
    emitted: Seq<TokenView>,
)
    requires
        0 <= pos,
        forall|i: int| 0 <= i < emitted.len() ==> is_normal(#[trigger] emitted[i]),
    ensures
        lex_from(text, pos, mode, emitted) matches Ok(tokens) ==> forall|i: int|
            0 <= i < tokens.len() ==> is_normal(#[trigger] tokens[i]),
    decreases text.len() - pos,
{
    if pos >= text.len() {
    } else if is_space(text[pos]) {
        lemma_lex_from_normal(text, pos + 1, mode, emitted);
    } else {
        let star = star_token(mode, emitted);
        lemma_token_advances(text, pos, star);
        if let Ok((token, end)) = next_token(text, pos, star) {
            if is_word_start(text[pos]) {
                let word = upper_text(text.subrange(pos, end));
                assert forall|i: int| 0 <= i < word.len() implies is_word_part(#[trigger] word[i])
                    && !is_lower(word[i]) by {
                    lemma_word_run(text, pos, pos + i);
                }
            }
            lemma_lex_from_normal(text, end, mode_after(mode, token), emitted.push(token));
        }
    }
}

/// Identifiers come out in upper case: every identifier among the tokens
/// of a text is a word in upper case, and none spells a keyword.
pub proof fn lemma_identifiers_are_upper(text: Seq<char>)
    ensures
        lex(text) matches Ok(tokens) ==> forall|i: int|
            0 <= i < tokens.len() ==> is_normal(#[trigger] tokens[i]),
{
    lemma_lex_from_normal(text, 0, ScanMode::Default, Seq::empty());
}

/// A list of expressions ends behind its beginning, within the tokens.
pub proof fn lemma_expression_items_advance(
    tokens: Seq<TokenView>,
    pos: int,
    done: Seq<ExpressionView>,
)
    ensures
        expression_items(tokens, pos, done) matches Ok((_, next)) ==> pos < next < tokens.len(),
    decreases tokens.len() - pos,
{
    lemma_expression_advances(tokens, pos, 0);
    if let Ok((item, next)) = expression(tokens, pos) {
        if token_at(tokens, next) == Some(TokenView::Comma) {
            lemma_expression_items_advance(tokens, next + 1, done.push(item));
        }
    }
}

/// A list of `ORDER BY` terms ends behind its beginning, within the
/// tokens.
pub proof fn lemma_order_terms_advance(tokens: Seq<TokenView>, pos: int, done: Seq<ExpressionView>)
    ensures
        order_terms(tokens, pos, done) matches Ok((_, next)) ==> pos < next <= tokens.len(),
    decreases tokens.len() - pos,
{
    lemma_expression_advances(tokens, pos, 0);
    if let Ok((term, next)) = order_term(tokens, pos) {
        if token_at(tokens, next) == Some(TokenView::Comma) {
            lemma_order_terms_advance(tokens, next + 1, done.push(term));
        }
    }
}

/// The items of a table end behind their beginning, within the tokens.
pub proof fn lemma_table_items_advance(
    tokens: Seq<TokenView>,
    pos: int,
    columns: Seq<TableColumnView>,
)
    ensures
        table_items(tokens, pos, columns) matches Ok((_, next)) ==> pos < next <= tokens.len(),
    decreases tokens.len() - pos,
{
    if token_at(tokens, pos) != Some(TokenView::RightParentheses) {
        let separated = if columns.len() > 0 {
            expect_token(tokens, pos, TokenView::Comma)
        } else {
            Ok(pos)
        };
        if let Ok(pos1) = separated {
            if token_at(tokens, pos1) == Some(TokenView::Keyword(Keyword::Foreign)) {
                lemma_foreign_key_advances(tokens, pos1 + 1);
                if let Ok((key, next)) = foreign_key(tokens, pos1 + 1) {
                    if let Ok(attached) = attach_key(columns, key) {
                        lemma_table_items_advance(tokens, next, attached);
                    }
                }
            } else {
                lemma_column_advances(tokens, pos1);
                if let Ok((column, next)) = column_definition(tokens, pos1) {
                    lemma_table_items_advance(tokens, next, columns.push(column));
                }
            }
        }
    }
}

/// A statement is complete: it is never empty, it ends within the tokens,
/// and its last token is a semicolon.
pub proof fn lemma_statement_ends_with_semicolon(tokens: Seq<TokenView>, pos: int)
    requires
        0 <= pos,
    ensures
        statement(tokens, pos) matches Ok((_, end)) ==> pos < end <= tokens.len() && tokens[end
            - 1] == TokenView::Semicolon,
{
    match token_at(tokens, pos) {
        Some(TokenView::Keyword(Keyword::Select)) => {
            if token_at(tokens, pos + 1) != Some(TokenView::Wildcard) {
                lemma_expression_items_advance(tokens, pos + 1, Seq::empty());
            }
            if let Ok((columns, pos1)) = expressions_list(tokens, pos + 1) {
                if let Ok((from, pos2)) = name_at(
                    tokens,
                    pos1 + 1,
                    "Expected table name, found "@,
                ) {
                    lemma_expression_advances(tokens, pos2 + 1, 0);
                    if let Ok((predicate, pos3)) = where_clause(tokens, pos2) {
                        if let Ok(pos4) = expect_keyword(tokens, pos3 + 1, Keyword::By) {
                            lemma_order_terms_advance(tokens, pos4, Seq::empty());
                        }
                    }
                }
            }
        },
        Some(TokenView::Keyword(Keyword::Create)) => {
            if let Ok(pos1) = expect_keyword(tokens, pos + 1, Keyword::Table) {
                if let Ok((table_name, pos2)) = name_at(
                    tokens,
                    pos1,
                    "Expected table name, found "@,
                ) {
                    if let Ok(pos3) = expect_token(tokens, pos2, TokenView::LeftParentheses) {
                        lemma_table_items_advance(tokens, pos3, Seq::empty());
                    }
                }
            }
        },
        _ => {},
    }
}

/// An expression is a term and what follows it.
pub proof fn lemma_binary_expression_unfolds(tokens: Seq<TokenView>, pos: int, min: nat)
    ensures
        binary_expression(tokens, pos, min) == match prefix_expression(tokens, pos) {
            Ok((left, next)) => binary_tail(tokens, next, min, left),
            Err(e) => Err(e),
        },
{
    lemma_expression_advances(tokens, pos, min);
}

/// Behind a binary operator that binds tightly enough stands its right
/// operand, and behind that what follows the two.
pub proof fn lemma_binary_tail_unfolds(
    tokens: Seq<TokenView>,
    pos: int,
    min: nat,
    left: ExpressionView,
)
    requires
        token_at(tokens, pos) matches Some(t) && !is_terminator(t) && binary_precedence(t) >= min
            && binary_operator(t) is Some,
    ensures
        binary_tail(tokens, pos, min, left) == match binary_expression(
            tokens,
            pos + 1,
            binary_precedence(tokens[pos]) + 1,
        ) {
            Ok((right, next)) => binary_tail(
                tokens,
                next,
                min,
                binary(left, binary_operator(tokens[pos])->0, right),
            ),
            Err(e) => Err(e),
        },
{
    lemma_expression_advances(tokens, pos + 1, binary_precedence(tokens[pos]) + 1);
}

/// The column that a name finds is the first one of that name; a name
/// finds none only if no column has it.
pub proof fn lemma_column_named(columns: Seq<TableColumnView>, name: Seq<char>, from: int)
    requires
        0 <= from,
    ensures
        match column_named(columns, name, from) {
            Some(i) => from <= i < columns.len() && columns[i].column_name == name && forall|
                j: int,
            |
                from <= j < i ==> columns[j].column_name != name,
            None => forall|j: int| from <= j < columns.len() ==> columns[j].column_name != name,
        },
    decreases columns.len() - from,
{
    if from < columns.len() && columns[from].column_name != name {
        lemma_column_named(columns, name, from + 1);
    }
}

/// Whether column `i` is the first one that has the name.
pub open spec fn is_first_named(columns: Seq<TableColumnView>, name: Seq<char>, i: int) -> bool {
    &&& 0 <= i < columns.len()
    &&& columns[i].column_name == name
    &&& forall|j: int| 0 <= j < i ==> columns[j].column_name != name
}

/// A table-level foreign key changes one column only: the first that has
/// the key's column name gets the key behind its constraints. The key is
/// refused if and only if no column has that name.
pub proof fn lemma_attach_key(columns: Seq<TableColumnView>, key: ConstraintView)
    requires
        key is ForeignKey,
    ensures
        match attach_key(columns, key) {
            Ok(attached) => exists|i: int| #[trigger]
                is_first_named(columns, key->column, i) && attached == columns.update(
                    i,
                    with_constraint(columns[i], key),
                ),
            Err(e) => {
                &&& e == ErrorView::InvalidForeignKey(
                    "Column "@ + key->column + " not found in table"@,
                )
                &&& forall|j: int| 0 <= j < columns.len() ==> columns[j].column_name != key->column
            },
        },
{
    lemma_column_named(columns, key->column, 0);
    if let Some(i) = column_named(columns, key->column, 0) {
        assert(is_first_named(columns, key->column, i));
    }
}

/// Whether every `Wildcard` among the tokens stands right behind `SELECT`
/// or a comma.
pub open spec fn wildcards_in_place(tokens: Seq<TokenView>) -> bool {
    forall|i: int|
        0 <= i < tokens.len() && #[trigger] tokens[i] == TokenView::Wildcard ==> i > 0 && (tokens[i
            - 1] == TokenView::Keyword(Keyword::Select) || tokens[i - 1] == TokenView::Comma)
}

/// Where the scan goes on from tokens whose wildcards are in place, the
/// wildcards of the tokens that come out are in place.
pub proof fn lemma_lex_from_wildcards(
    text: Seq<char>,
    pos: int,
    mode: ScanMode,
    emitted: Seq<TokenView>,
)
    requires
        0 <= pos,
        wildcards_in_place(emitted),
    ensures
        lex_from(text, pos, mode, emitted) matches Ok(tokens) ==> wildcards_in_place(tokens),
    decreases text.len() - pos,
{
    if pos >= text.len() {
        assert(wildcards_in_place(emitted.push(TokenView::Eof)));
    } else if is_space(text[pos]) {
        lemma_lex_from_wildcards(text, pos + 1, mode, emitted);
    } else {
        let star = star_token(mode, emitted);
        lemma_token_advances(text, pos, star);
        if let Ok((token, end)) = next_token(text, pos, star) {
            assert(wildcards_in_place(emitted.push(token)));
            lemma_lex_from_wildcards(text, end, mode_after(mode, token), emitted.push(token));
        }
    }
}

/// A `*` is a wildcard only right behind `SELECT` or a comma: among the
/// tokens of a text no `Wildcard` stands anywhere else.
pub proof fn lemma_wildcard_follows_select_or_comma(text: Seq<char>)
    ensures
        lex(text) matches Ok(tokens) ==> wildcards_in_place(tokens),
{
    lemma_lex_from_wildcards(text, 0, ScanMode::Default, Seq::empty());
}

} // verus!
