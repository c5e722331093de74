//! The model of parsing: which statement a sequence of tokens stands for.
//!
//! Every rule reads the tokens from a place `pos` on and gives what it
//! found together with the place after it, or the first error. Nothing is
//! read twice and nothing is taken back.

use vstd::prelude::*;
use crate::error::ErrorView;
use crate::statement::{
    BinaryOperator, ConstraintView, DBType, ExpressionView, StatementView, TableColumnView,
    UnaryOperator,
};
use crate::token::{Keyword, TokenView};

verus! {

/// Why a rule failed, and where the parser stands then: at the token that
/// it refused.
pub struct Failure {
    pub error: ErrorView,
    pub at: int,
}

/// What a rule gives: the value and the place after it, or its failure.
pub type Parsed<T> = Result<(T, int), Failure>;

/// The failure with `error` at the place `at`.
pub open spec fn failed<T>(error: ErrorView, at: int) -> Result<T, Failure> {
    Err(Failure { error, at })
}

/// The token at `pos`, if the sequence reaches that far.
pub open spec fn token_at(tokens: Seq<TokenView>, pos: int) -> Option<TokenView> {
    if 0 <= pos < tokens.len() {
        Some(tokens[pos])
    } else {
        None
    }
}

/// The error for a token that stands where `expected` was asked for.
pub open spec fn unexpected(expected: Seq<char>, found: TokenView) -> ErrorView {
    ErrorView::UnexpectedToken { expected, found: found.debug_text() }
}

/// The place after the token `expected`, which must stand at `pos`.
pub open spec fn expect_token(tokens: Seq<TokenView>, pos: int, expected: TokenView) -> Result<
    int,
    Failure,
> {
    match token_at(tokens, pos) {
        Some(t) => if t == expected {
            Ok(pos + 1)
        } else {
            failed(unexpected(expected.debug_text(), t), pos)
        },
        None => failed(ErrorView::UnexpectedEOF, pos),
    }
}

/// The place after the keyword `expected`, which must stand at `pos`.
pub open spec fn expect_keyword(tokens: Seq<TokenView>, pos: int, expected: Keyword) -> Result<
    int,
    Failure,
> {
    match token_at(tokens, pos) {
        Some(t) => if t == TokenView::Keyword(expected) {
            Ok(pos + 1)
        } else {
            failed(unexpected(expected.name_text(), t), pos)
        },
        None => failed(ErrorView::UnexpectedEOF, pos),
    }
}

/// The identifier at `pos`. Another token is a parser error whose message
/// is `prefix` and then the token.
pub open spec fn name_at(tokens: Seq<TokenView>, pos: int, prefix: Seq<char>) -> Parsed<Seq<char>> {
    match token_at(tokens, pos) {
        Some(TokenView::Identifier(name)) => Ok((name, pos + 1)),
        Some(t) => failed(ErrorView::ParserError(prefix + t.debug_text()), pos),
        None => failed(ErrorView::UnexpectedEOF, pos),
    }
}

/// The identifier at `pos` inside a `FOREIGN KEY` clause. Another token,
/// or none, is an invalid foreign key.
pub open spec fn key_name_at(
    tokens: Seq<TokenView>,
    pos: int,
    prefix: Seq<char>,
    missing: Seq<char>,
) -> Parsed<Seq<char>> {
    match token_at(tokens, pos) {
        Some(TokenView::Identifier(name)) => Ok((name, pos + 1)),
        Some(t) => failed(ErrorView::InvalidForeignKey(prefix + t.debug_text()), pos),
        None => failed(ErrorView::InvalidForeignKey(missing), pos),
    }
}

/// The tokens that end an expression wherever they stand.
pub open spec fn is_terminator(t: TokenView) -> bool {
    t == TokenView::Semicolon || t == TokenView::Comma || t == TokenView::Keyword(Keyword::From)
        || t == TokenView::RightParentheses || t == TokenView::Keyword(Keyword::Order) || t
        == TokenView::Keyword(Keyword::Asc) || t == TokenView::Keyword(Keyword::Desc)
}

/// How tightly the token binds as a binary operator: the higher, the
/// tighter. A token that is no binary operator has 0.
pub open spec fn binary_precedence(t: TokenView) -> nat {
    match t {
        TokenView::Keyword(Keyword::Or) => 1,
        TokenView::Keyword(Keyword::And) => 2,
        TokenView::Equal | TokenView::NotEqual => 3,
        TokenView::GreaterThan
        | TokenView::GreaterThanOrEqual
        | TokenView::LessThan
        | TokenView::LessThanOrEqual => 4,
        TokenView::Plus | TokenView::Minus => 5,
        TokenView::Star | TokenView::Divide => 6,
        _ => 0,
    }
}

/// The binary operator that the token stands for.
pub open spec fn binary_operator(t: TokenView) -> Option<BinaryOperator> {
    match t {
        TokenView::Plus => Some(BinaryOperator::Plus),
        TokenView::Minus => Some(BinaryOperator::Minus),
        TokenView::Star => Some(BinaryOperator::Multiply),
        TokenView::Divide => Some(BinaryOperator::Divide),
        TokenView::Equal => Some(BinaryOperator::Equal),
        TokenView::NotEqual => Some(BinaryOperator::NotEqual),
        TokenView::GreaterThan => Some(BinaryOperator::GreaterThan),
        TokenView::GreaterThanOrEqual => Some(BinaryOperator::GreaterThanOrEqual),
        TokenView::LessThan => Some(BinaryOperator::LessThan),
        TokenView::LessThanOrEqual => Some(BinaryOperator::LessThanOrEqual),
        TokenView::Keyword(Keyword::And) => Some(BinaryOperator::And),
        TokenView::Keyword(Keyword::Or) => Some(BinaryOperator::Or),
        _ => None,
    }
}

/// `operator` applied to `operand`.
pub open spec fn unary(operator: UnaryOperator, operand: ExpressionView) -> ExpressionView {
    ExpressionView::UnaryOperation { operand: Box::new(operand), operator }
}

/// `operator` applied to `left` and `right`.
pub open spec fn binary(
    left: ExpressionView,
    operator: BinaryOperator,
    right: ExpressionView,
) -> ExpressionView {
    ExpressionView::BinaryOperation {
        left_operand: Box::new(left),
        operator,
        right_operand: Box::new(right),
    }
}

/// `operator` applied to the whole expression that begins at `pos`.
pub open spec fn unary_operation(
    tokens: Seq<TokenView>,
    pos: int,
    operator: UnaryOperator,
) -> Parsed<ExpressionView>
    decreases tokens.len() - pos, 3int,
{
    match binary_expression(tokens, pos, 0) {
        Ok((operand, next)) => Ok((unary(operator, operand), next)),
        Err(e) => Err(e),
    }
}

/// A term: a number, a text, `TRUE` or `FALSE`, an identifier, an
/// expression between round brackets, or `-`, `+` or `NOT` before an
/// expression. Such an operator takes the whole expression after it as its
/// operand, so it binds more loosely than any binary operator: `-1+2` is
/// `-(1+2)`.
pub open spec fn prefix_expression(tokens: Seq<TokenView>, pos: int) -> Parsed<ExpressionView>
    decreases tokens.len() - pos, 0int,
{
    match token_at(tokens, pos) {
        None => failed(ErrorView::UnexpectedEOF, pos),
        Some(t) => match t {
            TokenView::Number(n) => Ok((ExpressionView::Number(n), pos + 1)),
            TokenView::String(s) => Ok((ExpressionView::String(s), pos + 1)),
            TokenView::Identifier(i) => Ok((ExpressionView::Identifier(i), pos + 1)),
            TokenView::Keyword(Keyword::True) => Ok((ExpressionView::Bool(true), pos + 1)),
            TokenView::Keyword(Keyword::False) => Ok((ExpressionView::Bool(false), pos + 1)),
            TokenView::LeftParentheses => match binary_expression(tokens, pos + 1, 0) {
                Ok((inner, next)) => match expect_token(tokens, next, TokenView::RightParentheses) {
                    Ok(after) => Ok((inner, after)),
                    Err(e) => Err(e),
                },
                Err(e) => Err(e),
            },
            TokenView::Minus => unary_operation(tokens, pos + 1, UnaryOperator::Minus),
            TokenView::Plus => unary_operation(tokens, pos + 1, UnaryOperator::Plus),
            TokenView::Keyword(Keyword::Not) => unary_operation(
                tokens,
                pos + 1,
                UnaryOperator::Not,
            ),
            _ => failed(
                ErrorView::ParserError("Unexpected token in prefix position: "@ + t.debug_text()),
                pos,
            ),
        },
    }
}

/// An expression whose binary operators all bind at least as tightly as
/// `min`: a term, and then what `binary_tail` adds to it.
pub open spec fn binary_expression(tokens: Seq<TokenView>, pos: int, min: nat) -> Parsed<
    ExpressionView,
>
    decreases tokens.len() - pos, 2int,
{
    match prefix_expression(tokens, pos) {
        // A term is never empty (`lemma_expression_advances`), so the
        // first branch is always taken.
        Ok((left, next)) => if pos < next <= tokens.len() {
            binary_tail(tokens, next, min, left)
        } else {
            Ok((left, next))
        },
        Err(e) => Err(e),
    }
}

/// What follows the operand `left`: as long as a binary operator stands at
/// `pos` that binds at least as tightly as `min`, it takes `left` and the
/// expression after it, in which only tighter operators may stand, as its
/// operands. So operators of one precedence group to the left. The
/// expression ends before a terminator, before an operator that binds more
/// loosely than `min`, before any other token that is no binary operator,
/// and at the end of the tokens. The token that ends it is left standing.
pub open spec fn binary_tail(
    tokens: Seq<TokenView>,
    pos: int,
    min: nat,
    left: ExpressionView,
) -> Parsed<ExpressionView>
    decreases tokens.len() - pos, 1int,
{
    match token_at(tokens, pos) {
        None => Ok((left, pos)),
        Some(t) => if is_terminator(t) || binary_precedence(t) < min {
            Ok((left, pos))
        } else {
            match binary_operator(t) {
                None => Ok((left, pos)),
                Some(operator) => match binary_expression(
                    tokens,
                    pos + 1,
                    binary_precedence(t) + 1,
                ) {
                    // An operand is never empty, so the first branch is
                    // always taken.
                    Ok((right, next)) => if pos < next <= tokens.len() {
                        binary_tail(tokens, next, min, binary(left, operator, right))
                    } else {
                        Ok((left, next))
                    },
                    Err(e) => Err(e),
                },
            }
        },
    }
}

/// The expression that begins at `pos`.
pub open spec fn expression(tokens: Seq<TokenView>, pos: int) -> Parsed<ExpressionView> {
    binary_expression(tokens, pos, 0)
}

/// An expression is never empty and ends within the tokens.
pub proof fn lemma_expression_advances(tokens: Seq<TokenView>, pos: int, min: nat)
    ensures
        binary_expression(tokens, pos, min) matches Ok((_, next)) ==> pos < next <= tokens.len(),
        prefix_expression(tokens, pos) matches Ok((_, next)) ==> pos < next <= tokens.len(),
    decreases tokens.len() - pos, 2int,
{
    lemma_prefix_advances(tokens, pos);
    if let Ok((left, next)) = prefix_expression(tokens, pos) {
        lemma_tail_advances(tokens, next, min, left);
    }
}

/// A term is never empty and ends within the tokens.
proof fn lemma_prefix_advances(tokens: Seq<TokenView>, pos: int)
    ensures
        prefix_expression(tokens, pos) matches Ok((_, next)) ==> pos < next <= tokens.len(),
    decreases tokens.len() - pos, 0int,
{
    if let Some(t) = token_at(tokens, pos) {
        match t {
            TokenView::LeftParentheses
            | TokenView::Minus
            | TokenView::Plus
            | TokenView::Keyword(Keyword::Not) => {
                lemma_expression_advances(tokens, pos + 1, 0);
            },
            _ => {},
        }
    }
}

/// What follows an operand ends at or after its beginning, within the
/// tokens.
proof fn lemma_tail_advances(tokens: Seq<TokenView>, pos: int, min: nat, left: ExpressionView)
    requires
        0 <= pos <= tokens.len(),
    ensures
        binary_tail(tokens, pos, min, left) matches Ok((_, next)) ==> pos <= next <= tokens.len(),
    decreases tokens.len() - pos, 1int,
{
    if let Some(t) = token_at(tokens, pos) {
        if !(is_terminator(t) || binary_precedence(t) < min) {
            if let Some(operator) = binary_operator(t) {
                lemma_expression_advances(tokens, pos + 1, binary_precedence(t) + 1);
                if let Ok((right, next)) = binary_expression(
                    tokens,
                    pos + 1,
                    binary_precedence(t) + 1,
                ) {
                    lemma_tail_advances(tokens, next, min, binary(left, operator, right));
                }
            }
        }
    }
}

/// The columns of a `SELECT`: a lone `*`, which is held as the
/// identifier `*`, or expressions with commas between them. `FROM` ends
/// the list and is left standing; so is a semicolon, in which the caller
/// finds that `FROM` is missing. Behind `*` nothing else may follow.
pub open spec fn expressions_list(tokens: Seq<TokenView>, pos: int) -> Parsed<Seq<ExpressionView>> {
    if token_at(tokens, pos) == Some(TokenView::Wildcard) {
        match token_at(tokens, pos + 1) {
            Some(TokenView::Keyword(Keyword::From)) => Ok(
                (seq![ExpressionView::Identifier("*"@)], pos + 1),
            ),
            Some(TokenView::Semicolon) => Ok((seq![ExpressionView::Identifier("*"@)], pos + 1)),
            Some(t) => failed(unexpected("FROM"@, t), pos + 1),
            None => failed(ErrorView::UnexpectedEOF, pos + 1),
        }
    } else {
        expression_items(tokens, pos, Seq::empty())
    }
}

/// The expressions from `pos` on, after those in `done`. After each
/// expression a comma leads to the next one; `FROM` or a semicolon ends
/// the list and is left standing.
pub open spec fn expression_items(
    tokens: Seq<TokenView>,
    pos: int,
    done: Seq<ExpressionView>,
) -> Parsed<Seq<ExpressionView>>
    decreases tokens.len() - pos,
{
    match expression(tokens, pos) {
        Ok((item, next)) => match token_at(tokens, next) {
            Some(TokenView::Comma) => {
                proof {
                    lemma_expression_advances(tokens, pos, 0);
                }
                expression_items(tokens, next + 1, done.push(item))
            },
            Some(TokenView::Keyword(Keyword::From)) => Ok((done.push(item), next)),
            Some(TokenView::Semicolon) => Ok((done.push(item), next)),
            Some(t) => failed(unexpected("comma or FROM"@, t), next),
            None => failed(ErrorView::UnexpectedEOF, next),
        },
        Err(e) => Err(e),
    }
}

/// One term of `ORDER BY`: an expression, wrapped in `Asc` or `Desc` if
/// that keyword follows it.
pub open spec fn order_term(tokens: Seq<TokenView>, pos: int) -> Parsed<ExpressionView> {
    match expression(tokens, pos) {
        Ok((term, next)) => match token_at(tokens, next) {
            Some(TokenView::Keyword(Keyword::Asc)) => Ok(
                (unary(UnaryOperator::Asc, term), next + 1),
            ),
            Some(TokenView::Keyword(Keyword::Desc)) => Ok(
                (unary(UnaryOperator::Desc, term), next + 1),
            ),
            _ => Ok((term, next)),
        },
        Err(e) => Err(e),
    }
}

/// The terms of `ORDER BY` from `pos` on, after those in `done`, with
/// commas between them.
pub open spec fn order_terms(
    tokens: Seq<TokenView>,
    pos: int,
    done: Seq<ExpressionView>,
) -> Parsed<Seq<ExpressionView>>
    decreases tokens.len() - pos,
{
    match order_term(tokens, pos) {
        Ok((term, next)) => if token_at(tokens, next) == Some(TokenView::Comma) {
            proof {
                lemma_expression_advances(tokens, pos, 0);
            }
            order_terms(tokens, next + 1, done.push(term))
        } else {
            Ok((done.push(term), next))
        },
        Err(e) => Err(e),
    }
}

/// The `WHERE` clause at `pos`, if one stands there.
pub open spec fn where_clause(tokens: Seq<TokenView>, pos: int) -> Parsed<Option<ExpressionView>> {
    if token_at(tokens, pos) == Some(TokenView::Keyword(Keyword::Where)) {
        match expression(tokens, pos + 1) {
            Ok((predicate, next)) => Ok((Some(predicate), next)),
            Err(e) => Err(e),
        }
    } else {
        Ok((None, pos))
    }
}

/// The `ORDER BY` clause at `pos`, if one stands there.
pub open spec fn order_clause(tokens: Seq<TokenView>, pos: int) -> Parsed<Seq<ExpressionView>> {
    if token_at(tokens, pos) == Some(TokenView::Keyword(Keyword::Order)) {
        match expect_keyword(tokens, pos + 1, Keyword::By) {
            Ok(next) => order_terms(tokens, next, Seq::empty()),
            Err(e) => Err(e),
        }
    } else {
        Ok((Seq::empty(), pos))
    }
}

/// A `SELECT` statement, whose keyword stands at `pos`: the columns,
/// `FROM` and the table's name, then `WHERE` and `ORDER BY` if they are
/// there, in this order, and a semicolon. Without `FROM` after the columns
/// the error is `MissingFromClause`.
pub open spec fn select_statement(tokens: Seq<TokenView>, pos: int) -> Parsed<StatementView> {
    match expressions_list(tokens, pos + 1) {
        Ok((columns, pos1)) => if token_at(tokens, pos1) != Some(
            TokenView::Keyword(Keyword::From),
        ) {
            failed(ErrorView::MissingFromClause, pos1)
        } else {
            match name_at(tokens, pos1 + 1, "Expected table name, found "@) {
                Ok((from, pos2)) => match where_clause(tokens, pos2) {
                    Ok((predicate, pos3)) => match order_clause(tokens, pos3) {
                        Ok((orderby, pos4)) => match expect_token(
                            tokens,
                            pos4,
                            TokenView::Semicolon,
                        ) {
                            Ok(end) => Ok(
                                (
                                    StatementView::Select {
                                        columns,
                                        from,
                                        where_clause: predicate,
                                        orderby,
                                    },
                                    end,
                                ),
                            ),
                            Err(e) => Err(e),
                        },
                        Err(e) => Err(e),
                    },
                    Err(e) => Err(e),
                },
                Err(e) => Err(e),
            }
        },
        Err(e) => Err(e),
    }
}

/// What stands after the keyword `FOREIGN` among the constraints of a
/// column: `KEY (column) REFERENCES table(column)`. A token that should
/// be an identifier and is none is an invalid foreign key; a missing
/// keyword or bracket is an unexpected token.
pub open spec fn foreign_key(tokens: Seq<TokenView>, pos: int) -> Parsed<ConstraintView> {
    match expect_keyword(tokens, pos, Keyword::Key) {
        Ok(pos1) => match expect_token(tokens, pos1, TokenView::LeftParentheses) {
            Ok(pos2) => match key_name_at(
                tokens,
                pos2,
                "Expected column name, found "@,
                "Missing column name"@,
            ) {
                Ok((column, pos3)) => match expect_token(
                    tokens,
                    pos3,
                    TokenView::RightParentheses,
                ) {
                    Ok(pos4) => match expect_keyword(tokens, pos4, Keyword::References) {
                        Ok(pos5) => referenced(tokens, pos5, column),
                        Err(e) => Err(e),
                    },
                    Err(e) => Err(e),
                },
                Err(e) => Err(e),
            },
            Err(e) => Err(e),
        },
        Err(e) => Err(e),
    }
}

/// What stands after `REFERENCES` in the foreign key of `column`:
/// `table(column)`.
pub open spec fn referenced(tokens: Seq<TokenView>, pos: int, column: Seq<char>) -> Parsed<
    ConstraintView,
> {
    match key_name_at(
        tokens,
        pos,
        "Expected table name, found "@,
        "Missing referenced table name"@,
    ) {
        Ok((referenced_table, pos1)) => match expect_token(
            tokens,
            pos1,
            TokenView::LeftParentheses,
        ) {
            Ok(pos2) => match key_name_at(
                tokens,
                pos2,
                "Expected column name, found "@,
                "Missing referenced column name"@,
            ) {
                Ok((referenced_column, pos3)) => match expect_token(
                    tokens,
                    pos3,
                    TokenView::RightParentheses,
                ) {
                    Ok(end) => Ok(
                        (
                            ConstraintView::ForeignKey {
                                column,
                                referenced_table,
                                referenced_column,
                            },
                            end,
                        ),
                    ),
                    Err(e) => Err(e),
                },
                Err(e) => Err(e),
            },
            Err(e) => Err(e),
        },
        Err(e) => Err(e),
    }
}

/// The type of a column: `INT`, `BOOL`, or `VARCHAR` with its length, a
/// number between round brackets. `VARCHAR` without the bracket or the
/// number is an invalid length.
pub open spec fn column_type(tokens: Seq<TokenView>, pos: int) -> Parsed<DBType> {
    match token_at(tokens, pos) {
        Some(TokenView::Keyword(Keyword::Int)) => Ok((DBType::Int, pos + 1)),
        Some(TokenView::Keyword(Keyword::Bool)) => Ok((DBType::Bool, pos + 1)),
        Some(TokenView::Keyword(Keyword::Varchar)) => match token_at(tokens, pos + 1) {
            Some(TokenView::LeftParentheses) => match token_at(tokens, pos + 2) {
                Some(TokenView::Number(n)) => match expect_token(
                    tokens,
                    pos + 3,
                    TokenView::RightParentheses,
                ) {
                    Ok(end) => Ok((DBType::Varchar(n as usize), end)),
                    Err(e) => Err(e),
                },
                Some(t) => failed(
                    ErrorView::InvalidVarcharLength("Expected number, found "@ + t.debug_text()),
                    pos + 2,
                ),
                None => failed(
                    ErrorView::InvalidVarcharLength("Missing VARCHAR length"@),
                    pos + 2,
                ),
            },
            _ => failed(
                ErrorView::InvalidVarcharLength("Missing VARCHAR length specification"@),
                pos + 1,
            ),
        },
        Some(t) => failed(ErrorView::ParserError("Expected type, found "@ + t.debug_text()), pos),
        None => failed(ErrorView::UnexpectedEOF, pos),
    }
}

/// One constraint of a column, if one begins at `pos`: `PRIMARY KEY`,
/// `FOREIGN KEY ...`, `NOT NULL`, or `CHECK` with an expression between
/// round brackets. Any other token begins none.
pub open spec fn constraint(tokens: Seq<TokenView>, pos: int) -> Parsed<Option<ConstraintView>> {
    match token_at(tokens, pos) {
        Some(TokenView::Keyword(Keyword::Primary)) => match expect_keyword(
            tokens,
            pos + 1,
            Keyword::Key,
        ) {
            Ok(end) => Ok((Some(ConstraintView::PrimaryKey), end)),
            Err(e) => Err(e),
        },
        Some(TokenView::Keyword(Keyword::Foreign)) => match foreign_key(tokens, pos + 1) {
            Ok((key, end)) => Ok((Some(key), end)),
            Err(e) => Err(e),
        },
        Some(TokenView::Keyword(Keyword::Not)) => match expect_keyword(
            tokens,
            pos + 1,
            Keyword::Null,
        ) {
            Ok(end) => Ok((Some(ConstraintView::NotNull), end)),
            Err(e) => Err(e),
        },
        Some(TokenView::Keyword(Keyword::Check)) => if token_at(tokens, pos + 1) == Some(
            TokenView::LeftParentheses,
        ) {
            match expression(tokens, pos + 2) {
                Ok((condition, next)) => match expect_token(
                    tokens,
                    next,
                    TokenView::RightParentheses,
                ) {
                    Ok(end) => Ok((Some(ConstraintView::Check(condition)), end)),
                    Err(e) => Err(e),
                },
                Err(e) => Err(e),
            }
        } else {
            failed(ErrorView::ParserError("Expected '(' after CHECK"@), pos + 1)
        },
        _ => Ok((None, pos)),
    }
}

/// A constraint is never empty and ends within the tokens.
pub proof fn lemma_constraint_advances(tokens: Seq<TokenView>, pos: int)
    ensures
        constraint(tokens, pos) matches Ok((Some(_), next)) ==> pos < next <= tokens.len(),
        constraint(tokens, pos) matches Ok((None, next)) ==> next == pos,
{
    lemma_expression_advances(tokens, pos + 2, 0);
}

/// The constraints of a column from `pos` on, after those in `done`: as
/// many as stand there, in any order, each as often as it is written.
pub open spec fn constraints(
    tokens: Seq<TokenView>,
    pos: int,
    done: Seq<ConstraintView>,
) -> Parsed<Seq<ConstraintView>>
    decreases tokens.len() - pos,
{
    match constraint(tokens, pos) {
        Ok((Some(one), next)) => {
            proof {
                lemma_constraint_advances(tokens, pos);
            }
            constraints(tokens, next, done.push(one))
        },
        Ok((None, _)) => Ok((done, pos)),
        Err(e) => Err(e),
    }
}

/// The definition of a column: its name, its type and its constraints.
pub open spec fn column_definition(tokens: Seq<TokenView>, pos: int) -> Parsed<TableColumnView> {
    match name_at(tokens, pos, "Expected column name, found "@) {
        Ok((column_name, pos1)) => match column_type(tokens, pos1) {
            Ok((column_type, pos2)) => match constraints(tokens, pos2, Seq::empty()) {
                Ok((constraints, end)) => Ok(
                    (TableColumnView { column_name, column_type, constraints }, end),
                ),
                Err(e) => Err(e),
            },
            Err(e) => Err(e),
        },
        Err(e) => Err(e),
    }
}

/// The first column at or after `from` whose name is `name`.
pub open spec fn column_named(columns: Seq<TableColumnView>, name: Seq<char>, from: int) -> Option<
    int,
>
    decreases columns.len() - from,
{
    if from < 0 || from >= columns.len() {
        None
    } else if columns[from].column_name == name {
        Some(from)
    } else {
        column_named(columns, name, from + 1)
    }
}

/// The column with one more constraint at the end of its list.
pub open spec fn with_constraint(
    column: TableColumnView,
    added: ConstraintView,
) -> TableColumnView {
    TableColumnView {
        column_name: column.column_name,
        column_type: column.column_type,
        constraints: column.constraints.push(added),
    }
}

/// The columns after a table-level foreign key: the key goes to the first
/// column that has the key's column name. With no such column among those
/// defined so far, the key is invalid.
pub open spec fn attach_key(columns: Seq<TableColumnView>, key: ConstraintView) -> Result<
    Seq<TableColumnView>,
    ErrorView,
>
    recommends
        key is ForeignKey,
{
    let name = key->column;
    match column_named(columns, name, 0) {
        Some(i) => Ok(columns.update(i, with_constraint(columns[i], key))),
        None => Err(ErrorView::InvalidForeignKey("Column "@ + name + " not found in table"@)),
    }
}

/// A column's definition is never empty and ends within the tokens.
pub proof fn lemma_column_advances(tokens: Seq<TokenView>, pos: int)
    ensures
        column_definition(tokens, pos) matches Ok((_, next)) ==> pos < next <= tokens.len(),
{
    if let Ok((_, pos1)) = name_at(tokens, pos, "Expected column name, found "@) {
        if let Ok((_, pos2)) = column_type(tokens, pos1) {
            lemma_constraints_advance(tokens, pos2, Seq::empty());
        }
    }
}

/// A list of constraints ends at or after its beginning, within the
/// tokens.
pub proof fn lemma_constraints_advance(tokens: Seq<TokenView>, pos: int, done: Seq<ConstraintView>)
    requires
        0 <= pos <= tokens.len(),
    ensures
        constraints(tokens, pos, done) matches Ok((_, next)) ==> pos <= next <= tokens.len(),
    decreases tokens.len() - pos,
{
    lemma_constraint_advances(tokens, pos);
    if let Ok((Some(one), next)) = constraint(tokens, pos) {
        lemma_constraints_advance(tokens, next, done.push(one));
    }
}

/// A foreign key clause is never empty and ends within the tokens.
pub proof fn lemma_foreign_key_advances(tokens: Seq<TokenView>, pos: int)
    ensures
        foreign_key(tokens, pos) matches Ok((key, next)) ==> pos < next <= tokens.len()
            && key is ForeignKey,
        table_foreign_key(tokens, pos) matches Ok((key, next)) ==> pos < next <= tokens.len()
            && key is ForeignKey,
{
}

/// The error of a table-level foreign key for what went wrong inside its
/// clause: an invalid foreign key stays as it is, and any other error
/// becomes an invalid foreign key whose message is that error's line.
pub open spec fn as_key_error(error: ErrorView) -> ErrorView {
    match error {
        ErrorView::InvalidForeignKey(_) => error,
        _ => ErrorView::InvalidForeignKey(error.display_text()),
    }
}

/// A table-level foreign key, whose keyword `FOREIGN` stands before `pos`:
/// the clause as `foreign_key` reads it, but every mismatch in it, a
/// missing keyword or bracket too, is an invalid foreign key.
pub open spec fn table_foreign_key(tokens: Seq<TokenView>, pos: int) -> Parsed<ConstraintView> {
    match foreign_key(tokens, pos) {
        Ok(found) => Ok(found),
        Err(failure) => failed(as_key_error(failure.error), failure.at),
    }
}

/// What stands between the round brackets of `CREATE TABLE` from `pos`
/// on, after the columns in `columns`, up to the closing bracket. Each
/// item but the first comes after a comma. An item that begins with
/// `FOREIGN` is a table-level foreign key: it adds no column, and goes to
/// a column that is already there. Any other item is a column.
pub open spec fn table_items(
    tokens: Seq<TokenView>,
    pos: int,
    columns: Seq<TableColumnView>,
) -> Parsed<Seq<TableColumnView>>
    decreases tokens.len() - pos,
{
    if token_at(tokens, pos) == Some(TokenView::RightParentheses) {
        Ok((columns, pos + 1))
    } else {
        let separated = if columns.len() > 0 {
            expect_token(tokens, pos, TokenView::Comma)
        } else {
            Ok(pos)
        };
        match separated {
            Ok(pos1) => if token_at(tokens, pos1) == Some(TokenView::Keyword(Keyword::Foreign)) {
                match table_foreign_key(tokens, pos1 + 1) {
                    Ok((key, next)) => match attach_key(columns, key) {
                        Ok(attached) => {
                            proof {
                                lemma_foreign_key_advances(tokens, pos1 + 1);
                            }
                            table_items(tokens, next, attached)
                        },
                        Err(e) => failed(e, next),
                    },
                    Err(e) => Err(e),
                }
            } else {
                match column_definition(tokens, pos1) {
                    Ok((column, next)) => {
                        proof {
                            lemma_column_advances(tokens, pos1);
                        }
                        table_items(tokens, next, columns.push(column))
                    },
                    Err(e) => Err(e),
                }
            },
            Err(e) => Err(e),
        }
    }
}

/// What stands after `CREATE` in a `CREATE TABLE` statement: `TABLE`, the
/// table's name, the items between round brackets, and a semicolon.
pub open spec fn create_table(tokens: Seq<TokenView>, pos: int) -> Parsed<StatementView> {
    match expect_keyword(tokens, pos, Keyword::Table) {
        Ok(pos1) => match name_at(tokens, pos1, "Expected table name, found "@) {
            Ok((table_name, pos2)) => match expect_token(tokens, pos2, TokenView::LeftParentheses) {
                Ok(pos3) => match table_items(tokens, pos3, Seq::empty()) {
                    Ok((column_list, pos4)) => match expect_token(
                        tokens,
                        pos4,
                        TokenView::Semicolon,
                    ) {
                        Ok(end) => Ok(
                            (StatementView::CreateTable { table_name, column_list }, end),
                        ),
                        Err(e) => Err(e),
                    },
                    Err(e) => Err(e),
                },
                Err(e) => Err(e),
            },
            Err(e) => Err(e),
        },
        Err(e) => Err(e),
    }
}

/// What stands after `CREATE` in a `CREATE INDEX` statement: `UNIQUE` or
/// not, then `INDEX`, the index's name, `ON`, the table's name, the
/// column's name between round brackets, and a semicolon.
pub open spec fn create_index(tokens: Seq<TokenView>, pos: int) -> Parsed<StatementView> {
    let is_unique = token_at(tokens, pos) == Some(TokenView::Keyword(Keyword::Unique));
    let pos0 = if is_unique {
        pos + 1
    } else {
        pos
    };
    match expect_keyword(tokens, pos0, Keyword::Index) {
        Ok(pos1) => match name_at(tokens, pos1, "Expected index name, found "@) {
            Ok((index_name, pos2)) => match expect_keyword(tokens, pos2, Keyword::On) {
                Ok(pos3) => match name_at(tokens, pos3, "Expected table name, found "@) {
                    Ok((table_name, pos4)) => index_column(
                        tokens,
                        pos4,
                        is_unique,
                        index_name,
                        table_name,
                    ),
                    Err(e) => Err(e),
                },
                Err(e) => Err(e),
            },
            Err(e) => Err(e),
        },
        Err(e) => Err(e),
    }
}

/// The end of a `CREATE INDEX` statement: the column's name between round
/// brackets, and a semicolon.
pub open spec fn index_column(
    tokens: Seq<TokenView>,
    pos: int,
    is_unique: bool,
    index_name: Seq<char>,
    table_name: Seq<char>,
) -> Parsed<StatementView> {
    match expect_token(tokens, pos, TokenView::LeftParentheses) {
        Ok(pos1) => match name_at(tokens, pos1, "Expected column name, found "@) {
            Ok((column_name, pos2)) => match expect_token(
                tokens,
                pos2,
                TokenView::RightParentheses,
            ) {
                Ok(pos3) => match expect_token(tokens, pos3, TokenView::Semicolon) {
                    Ok(end) => Ok(
                        (
                            StatementView::CreateIndex {
                                is_unique,
                                index_name,
                                table_name,
                                column_name,
                            },
                            end,
                        ),
                    ),
                    Err(e) => Err(e),
                },
                Err(e) => Err(e),
            },
            Err(e) => Err(e),
        },
        Err(e) => Err(e),
    }
}

/// The statement that begins at `pos`. `SELECT` begins a `SELECT`
/// statement; `CREATE` begins `CREATE TABLE` or, before `UNIQUE` or
/// `INDEX`, `CREATE INDEX`. Nothing else begins a statement.
pub open spec fn statement(tokens: Seq<TokenView>, pos: int) -> Parsed<StatementView> {
    match token_at(tokens, pos) {
        Some(TokenView::Keyword(Keyword::Select)) => select_statement(tokens, pos),
        Some(TokenView::Keyword(Keyword::Create)) => match token_at(tokens, pos + 1) {
            Some(TokenView::Keyword(Keyword::Table)) => create_table(tokens, pos + 1),
            Some(TokenView::Keyword(Keyword::Unique)) | Some(
                TokenView::Keyword(Keyword::Index),
            ) => create_index(tokens, pos + 1),
            Some(t) => failed(unexpected("TABLE or INDEX"@, t), pos + 1),
            None => failed(ErrorView::UnexpectedEOF, pos + 1),
        },
        Some(t) => failed(unexpected("SELECT or CREATE"@, t), pos),
        None => failed(ErrorView::UnexpectedEOF, pos),
    }
}

/// The statement that the tokens stand for.
pub open spec fn parse(tokens: Seq<TokenView>) -> Result<StatementView, ErrorView> {
    match statement(tokens, 0) {
        Ok((parsed, _)) => Ok(parsed),
        Err(failure) => Err(failure.error),
    }
}

} // verus!
