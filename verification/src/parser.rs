//! The parser: from tokens to a statement.

use vstd::prelude::*;
use crate::error::{Error, ErrorView};
use crate::grammar::{
    as_key_error, attach_key, binary_expression, binary_operator, binary_precedence, binary_tail,
    column_definition, column_named, column_type, constraint, create_index, create_table,
    expect_keyword, expect_token, expression, expression_items, expressions_list, foreign_key,
    is_terminator, key_name_at, lemma_column_advances, lemma_constraint_advances,
    lemma_expression_advances, lemma_foreign_key_advances, name_at, order_clause, order_term,
    order_terms, prefix_expression, select_statement, statement, table_items, token_at,
    unary_operation, where_clause, with_constraint, Failure, Parsed,
};
use crate::laws::lemma_statement_ends_with_semicolon;
use crate::statement::{
    column_views, constraint_views, expression_views, optional_view, BinaryOperator, Constraint,
    DBType, Expression, ExpressionView, Statement, TableColumn, UnaryOperator,
};
use crate::text::joined;
use crate::token::{token_views, Keyword, Token, TokenView};
use vstd::string::StringExecFns;

verus! {

/// Whether a rule's result and the place where the parser stands after it
/// are what the model of the rule gives: the value and the place behind
/// it, or the error and the place of the token that was refused.
pub open spec fn agrees<T: View>(r: Result<T, Error>, position: int, model: Parsed<T::V>) -> bool {
    match model {
        Ok((value, next)) => r matches Ok(x) && x@ == value && position == next,
        Err(failure) => r matches Err(x) && x@ == failure.error && position == failure.at,
    }
}

/// `agrees`, for a rule that gives a list of expressions.
pub open spec fn list_agrees(
    r: Result<Vec<Expression>, Error>,
    position: int,
    model: Parsed<Seq<ExpressionView>>,
) -> bool {
    match model {
        Ok((value, next)) => r matches Ok(x) && expression_views(x@) == value && position == next,
        Err(failure) => r matches Err(x) && x@ == failure.error && position == failure.at,
    }
}

/// `agrees`, for a rule that gives nothing but the place after it.
pub open spec fn step_agrees(
    r: Result<(), Error>,
    position: int,
    model: Result<int, Failure>,
) -> bool {
    match model {
        Ok(next) => r is Ok && position == next,
        Err(failure) => r matches Err(x) && x@ == failure.error && position == failure.at,
    }
}

/// The first column whose name is `name`.
fn find_column(columns: &Vec<TableColumn>, name: &String) -> (r: Option<usize>)
    ensures
        match column_named(column_views(columns@), name@, 0) {
            Some(i) => r == Some(i as usize) && 0 <= i < columns.len(),
            None => r is None,
        },
{
    let mut i: usize = 0;
    while i < columns.len()
        invariant
            i <= columns.len(),
            column_named(column_views(columns@), name@, i as int) == column_named(
                column_views(columns@),
                name@,
                0,
            ),
        decreases columns.len() - i,
    {
        if columns[i].column_name == *name {
            return Some(i);
        }
        i += 1;
    }
    None
}

/// A parser over one sequence of tokens, with the place up to which it has
/// read. It reads forward only.
pub struct Parser {
    tokens: Vec<Token>,
    current: usize,
}

impl Parser {
    #[verifier::type_invariant]
    spec fn valid(self) -> bool {
        self.current <= self.tokens.len()
    }

    /// The tokens that are parsed.
    pub closed spec fn input(self) -> Seq<TokenView> {
        token_views(self.tokens@)
    }

    /// The place of the next token to read.
    pub closed spec fn position(self) -> int {
        self.current as int
    }

    /// A parser that stands before the first of `tokens`.
    pub fn new(tokens: Vec<Token>) -> (r: Self)
        ensures
            r.input() == token_views(tokens@),
            r.position() == 0,
    {
        Self { tokens, current: 0 }
    }

    /// The statement that begins where the parser stands, or the first
    /// error. After a statement the parser stands behind its semicolon;
    /// after an error it stands at the token that it refused.
    pub fn parse(&mut self) -> (r: Result<Statement, Error>)
        ensures
            final(self).input() == old(self).input(),
            old(self).position() <= final(self).position(),
            final(self).position() <= final(self).input().len(),
            agrees(r, final(self).position(), statement(old(self).input(), old(self).position())),
            r is Ok ==> old(self).position() < final(self).position(),
            r is Ok ==> final(self).input()[final(self).position() - 1] == TokenView::Semicolon,
    {
        proof {
            use_type_invariant(&*self);
            lemma_statement_ends_with_semicolon(self.input(), self.position());
        }
        let r = self.parse_statement();
        proof {
            use_type_invariant(&*self);
        }
        r
    }

    /// Tells the kinds of statement apart by their first tokens.
    fn parse_statement(&mut self) -> (r: Result<Statement, Error>)
        ensures
            final(self).input() == old(self).input(),
            old(self).position() <= final(self).position(),
            agrees(r, final(self).position(), statement(old(self).input(), old(self).position())),
    {
        match self.peek() {
            Some(Token::Keyword(Keyword::Select)) => self.parse_select(),
            Some(Token::Keyword(Keyword::Create)) => {
                self.advance();
                match self.peek() {
                    Some(Token::Keyword(Keyword::Table)) => self.parse_create_table(),
                    Some(Token::Keyword(Keyword::Unique))
                    | Some(Token::Keyword(Keyword::Index)) => {
                        self.parse_create_index()
                    },
                    Some(token) => Err(
                        Error::UnexpectedToken {
                            expected: "TABLE or INDEX".to_owned(),
                            found: token.debug_string(),
                        },
                    ),
                    None => Err(Error::UnexpectedEOF),
                }
            },
            Some(token) => Err(
                Error::UnexpectedToken {
                    expected: "SELECT or CREATE".to_owned(),
                    found: token.debug_string(),
                },
            ),
            None => Err(Error::UnexpectedEOF),
        }
    }

    fn parse_select(&mut self) -> (r: Result<Statement, Error>)
        requires
            token_at(old(self).input(), old(self).position()) is Some,
        ensures
            final(self).input() == old(self).input(),
            old(self).position() <= final(self).position(),
            agrees(
                r,
                final(self).position(),
                select_statement(old(self).input(), old(self).position()),
            ),
    {
        self.advance();
        let columns = match self.parse_expressions_list() {
            Ok(columns) => columns,
            Err(e) => {
                return Err(e);
            },
        };
        match self.peek() {
            Some(Token::Keyword(Keyword::From)) => {},
            _ => {
                return Err(Error::MissingFromClause);
            },
        }
        self.advance();
        let from = match self.name("Expected table name, found ") {
            Ok(name) => name,
            Err(e) => {
                return Err(e);
            },
        };
        let where_clause = match self.parse_where() {
            Ok(w) => w,
            Err(e) => {
                return Err(e);
            },
        };
        let orderby = match self.parse_order_by() {
            Ok(terms) => terms,
            Err(e) => {
                return Err(e);
            },
        };
        match self.expect_token(Token::Semicolon) {
            Ok(()) => {},
            Err(e) => {
                return Err(e);
            },
        }
        Ok(Statement::Select { columns, from, where_clause, orderby })
    }

    /// Reads the `WHERE` clause, if one stands here.
    fn parse_where(&mut self) -> (r: Result<Option<Expression>, Error>)
        ensures
            final(self).input() == old(self).input(),
            old(self).position() <= final(self).position(),
            match where_clause(old(self).input(), old(self).position()) {
                Ok((value, next)) => r matches Ok(x) && optional_view(x) == value
                    && final(self).position() == next,
                Err(failure) => r matches Err(x) && x@ == failure.error && final(self).position()
                    == failure.at,
            },
    {
        match self.peek() {
            Some(Token::Keyword(Keyword::Where)) => {
                self.advance();
                match self.parse_expression() {
                    Ok(predicate) => Ok(Some(predicate)),
                    Err(e) => Err(e),
                }
            },
            _ => Ok(None),
        }
    }

    /// Reads the `ORDER BY` clause, if one stands here.
    #[verifier::loop_isolation(false)]
    fn parse_order_by(&mut self) -> (r: Result<Vec<Expression>, Error>)
        ensures
            final(self).input() == old(self).input(),
            old(self).position() <= final(self).position(),
            list_agrees(
                r,
                final(self).position(),
                order_clause(old(self).input(), old(self).position()),
            ),
    {
        let mut orderby: Vec<Expression> = Vec::new();
        assert(expression_views(orderby@) =~= Seq::empty());
        match self.peek() {
            Some(Token::Keyword(Keyword::Order)) => {},
            _ => {
                return Ok(orderby);
            },
        }
        self.advance();
        match self.expect_keyword(Keyword::By) {
            Ok(()) => {},
            Err(e) => {
                return Err(e);
            },
        }
        let ghost tokens = self.input();
        let ghost start = self.position();
        loop
            invariant
                self.input() == tokens,
                old(self).position() <= self.position(),
                0 <= self.position() <= tokens.len(),
                order_terms(tokens, self.position(), expression_views(orderby@)) == order_terms(
                    tokens,
                    start,
                    Seq::empty(),
                ),
            decreases tokens.len() - self.position(),
        {
            proof {
                lemma_expression_advances(tokens, self.position(), 0);
            }
            let term = match self.parse_order_term() {
                Ok(term) => term,
                Err(e) => {
                    return Err(e);
                },
            };
            assert(expression_views(orderby@.push(term)) =~= expression_views(orderby@).push(
                term@,
            ));
            orderby.push(term);
            match self.peek() {
                Some(Token::Comma) => {
                    self.advance();
                },
                _ => {
                    return Ok(orderby);
                },
            }
        }
    }

    /// Reads one term of `ORDER BY`, with its direction if it has one.
    fn parse_order_term(&mut self) -> (r: Result<Expression, Error>)
        ensures
            final(self).input() == old(self).input(),
            old(self).position() <= final(self).position(),
            agrees(r, final(self).position(), order_term(old(self).input(), old(self).position())),
    {
        let term = match self.parse_expression() {
            Ok(term) => term,
            Err(e) => {
                return Err(e);
            },
        };
        match self.peek() {
            Some(Token::Keyword(Keyword::Asc)) => {
                self.advance();
                Ok(
                    Expression::UnaryOperation {
                        operand: Box::new(term),
                        operator: UnaryOperator::Asc,
                    },
                )
            },
            Some(Token::Keyword(Keyword::Desc)) => {
                self.advance();
                Ok(
                    Expression::UnaryOperation {
                        operand: Box::new(term),
                        operator: UnaryOperator::Desc,
                    },
                )
            },
            _ => Ok(term),
        }
    }

    #[verifier::loop_isolation(false)]
    fn parse_create_table(&mut self) -> (r: Result<Statement, Error>)
        ensures
            final(self).input() == old(self).input(),
            old(self).position() <= final(self).position(),
            agrees(
                r,
                final(self).position(),
                create_table(old(self).input(), old(self).position()),
            ),
    {
        match self.expect_keyword(Keyword::Table) {
            Ok(()) => {},
            Err(e) => {
                return Err(e);
            },
        }
        let table_name = match self.name("Expected table name, found ") {
            Ok(name) => name,
            Err(e) => {
                return Err(e);
            },
        };
        match self.expect_token(Token::LeftParentheses) {
            Ok(()) => {},
            Err(e) => {
                return Err(e);
            },
        }
        let mut column_list: Vec<TableColumn> = Vec::new();
        assert(column_views(column_list@) =~= Seq::empty());
        let ghost tokens = self.input();
        let ghost start = self.position();
        loop
            invariant
                self.input() == tokens,
                old(self).position() <= self.position(),
                0 <= self.position() <= tokens.len(),
                table_items(tokens, self.position(), column_views(column_list@)) == table_items(
                    tokens,
                    start,
                    Seq::empty(),
                ),
            decreases tokens.len() - self.position(),
        {
            let is_end = match self.peek() {
                Some(Token::RightParentheses) => true,
                _ => false,
            };
            if is_end {
                self.advance();
                return match self.expect_token(Token::Semicolon) {
                    Ok(()) => Ok(Statement::CreateTable { table_name, column_list }),
                    Err(e) => Err(e),
                };
            }
            if column_list.len() > 0 {
                match self.expect_token(Token::Comma) {
                    Ok(()) => {},
                    Err(e) => {
                        return Err(e);
                    },
                }
            }
            let is_key = match self.peek() {
                Some(Token::Keyword(Keyword::Foreign)) => true,
                _ => false,
            };
            if is_key {
                self.advance();
                proof {
                    lemma_foreign_key_advances(tokens, self.position());
                }
                let key = match self.parse_foreign_key() {
                    Ok(key) => key,
                    Err(e) => {
                        return Err(Self::key_error(e));
                    },
                };
                match Self::attach(&mut column_list, key) {
                    Ok(()) => {},
                    Err(e) => {
                        return Err(e);
                    },
                }
            } else {
                proof {
                    lemma_column_advances(tokens, self.position());
                }
                let column = match self.parse_column_definition() {
                    Ok(column) => column,
                    Err(e) => {
                        return Err(e);
                    },
                };
                assert(column_views(column_list@.push(column)) =~= column_views(column_list@).push(
                    column@,
                ));
                column_list.push(column);
            }
        }
    }

    /// The error of a table-level foreign key for what went wrong inside
    /// its clause.
    fn key_error(e: Error) -> (r: Error)
        ensures
            r@ == as_key_error(e@),
    {
        match e {
            Error::InvalidForeignKey(m) => Error::InvalidForeignKey(m),
            other => Error::InvalidForeignKey(other.to_string()),
        }
    }

    /// Gives a table-level foreign key to the column that it names.
    fn attach(column_list: &mut Vec<TableColumn>, key: Constraint) -> (r: Result<(), Error>)
        requires
            key is ForeignKey,
        ensures
            match attach_key(column_views(old(column_list)@), key@) {
                Ok(attached) => r is Ok && column_views(final(column_list)@) == attached,
                Err(e) => r matches Err(x) && x@ == e,
            },
    {
        let found = match &key {
            Constraint::ForeignKey { column, .. } => find_column(column_list, column),
            _ => None,
        };
        match found {
            Some(i) => {
                let ghost before = column_views(column_list@);
                column_list[i].constraints.push(key);
                assert(column_views(column_list@) =~= before.update(
                    i as int,
                    with_constraint(before[i as int], key@),
                )) by {
                    assert(column_list@[i as int]@.constraints
                        =~= before[i as int].constraints.push(key@));
                }
                Ok(())
            },
            None => {
                let mut message = "Column ".to_owned();
                match &key {
                    Constraint::ForeignKey { column, .. } => {
                        message.append(column.as_str());
                    },
                    _ => {},
                }
                message.append(" not found in table");
                Err(Error::InvalidForeignKey(message))
            },
        }
    }

    fn parse_create_index(&mut self) -> (r: Result<Statement, Error>)
        ensures
            final(self).input() == old(self).input(),
            old(self).position() <= final(self).position(),
            agrees(
                r,
                final(self).position(),
                create_index(old(self).input(), old(self).position()),
            ),
    {
        let is_unique = match self.peek() {
            Some(Token::Keyword(Keyword::Unique)) => {
                self.advance();
                true
            },
            _ => false,
        };
        match self.expect_keyword(Keyword::Index) {
            Ok(()) => {},
            Err(e) => {
                return Err(e);
            },
        }
        let index_name = match self.name("Expected index name, found ") {
            Ok(name) => name,
            Err(e) => {
                return Err(e);
            },
        };
        match self.expect_keyword(Keyword::On) {
            Ok(()) => {},
            Err(e) => {
                return Err(e);
            },
        }
        let table_name = match self.name("Expected table name, found ") {
            Ok(name) => name,
            Err(e) => {
                return Err(e);
            },
        };
        match self.expect_token(Token::LeftParentheses) {
            Ok(()) => {},
            Err(e) => {
                return Err(e);
            },
        }
        let column_name = match self.name("Expected column name, found ") {
            Ok(name) => name,
            Err(e) => {
                return Err(e);
            },
        };
        match self.expect_token(Token::RightParentheses) {
            Ok(()) => {},
            Err(e) => {
                return Err(e);
            },
        }
        match self.expect_token(Token::Semicolon) {
            Ok(()) => {},
            Err(e) => {
                return Err(e);
            },
        }
        Ok(Statement::CreateIndex { is_unique, index_name, table_name, column_name })
    }

    #[verifier::loop_isolation(false)]
    fn parse_column_definition(&mut self) -> (r: Result<TableColumn, Error>)
        ensures
            final(self).input() == old(self).input(),
            old(self).position() <= final(self).position(),
            agrees(
                r,
                final(self).position(),
                column_definition(old(self).input(), old(self).position()),
            ),
    {
        let column_name = match self.name("Expected column name, found ") {
            Ok(name) => name,
            Err(e) => {
                return Err(e);
            },
        };
        let column_type = match self.parse_column_type() {
            Ok(column_type) => column_type,
            Err(e) => {
                return Err(e);
            },
        };
        let mut constraints: Vec<Constraint> = Vec::new();
        assert(constraint_views(constraints@) =~= Seq::empty());
        let ghost tokens = self.input();
        let ghost start = self.position();
        loop
            invariant
                self.input() == tokens,
                old(self).position() <= self.position(),
                0 <= self.position() <= tokens.len(),
                crate::grammar::constraints(
                    tokens,
                    self.position(),
                    constraint_views(constraints@),
                ) == crate::grammar::constraints(tokens, start, Seq::empty()),
            decreases tokens.len() - self.position(),
        {
            proof {
                lemma_constraint_advances(tokens, self.position());
            }
            match self.parse_constraint() {
                Ok(Some(one)) => {
                    assert(constraint_views(constraints@.push(one)) =~= constraint_views(
                        constraints@,
                    ).push(one@));
                    constraints.push(one);
                },
                Ok(None) => {
                    return Ok(TableColumn { column_name, column_type, constraints });
                },
                Err(e) => {
                    return Err(e);
                },
            }
        }
    }

    /// Reads the type of a column.
    fn parse_column_type(&mut self) -> (r: Result<DBType, Error>)
        ensures
            final(self).input() == old(self).input(),
            old(self).position() <= final(self).position(),
            match column_type(old(self).input(), old(self).position()) {
                Ok((value, next)) => r == Ok::<DBType, Error>(value) && final(self).position()
                    == next,
                Err(failure) => r matches Err(x) && x@ == failure.error && final(self).position()
                    == failure.at,
            },
    {
        match self.peek() {
            Some(Token::Keyword(Keyword::Int)) => {
                self.advance();
                Ok(DBType::Int)
            },
            Some(Token::Keyword(Keyword::Bool)) => {
                self.advance();
                Ok(DBType::Bool)
            },
            Some(Token::Keyword(Keyword::Varchar)) => {
                self.advance();
                match self.peek() {
                    Some(Token::LeftParentheses) => {
                        self.advance();
                        let size = match self.peek() {
                            Some(Token::Number(n)) => {
                                let value = *n;
                                self.advance();
                                #[verifier::truncate]
                                (value as usize)
                            },
                            Some(token) => {
                                return Err(
                                    Error::InvalidVarcharLength(
                                        joined(
                                            "Expected number, found ",
                                            token.debug_string().as_str(),
                                        ),
                                    ),
                                );
                            },
                            None => {
                                return Err(
                                    Error::InvalidVarcharLength(
                                        "Missing VARCHAR length".to_owned(),
                                    ),
                                );
                            },
                        };
                        match self.expect_token(Token::RightParentheses) {
                            Ok(()) => Ok(DBType::Varchar(size)),
                            Err(e) => Err(e),
                        }
                    },
                    _ => Err(
                        Error::InvalidVarcharLength(
                            "Missing VARCHAR length specification".to_owned(),
                        ),
                    ),
                }
            },
            Some(token) => Err(
                Error::ParserError(joined("Expected type, found ", token.debug_string().as_str())),
            ),
            None => Err(Error::UnexpectedEOF),
        }
    }

    /// Reads one constraint of a column, if one begins here.
    fn parse_constraint(&mut self) -> (r: Result<Option<Constraint>, Error>)
        ensures
            final(self).input() == old(self).input(),
            old(self).position() <= final(self).position(),
            match constraint(old(self).input(), old(self).position()) {
                Ok((Some(value), next)) => r matches Ok(Some(x)) && x@ == value
                    && final(self).position() == next,
                Ok((None, next)) => r matches Ok(None) && final(self).position() == next,
                Err(failure) => r matches Err(x) && x@ == failure.error && final(self).position()
                    == failure.at,
            },
    {
        match self.peek() {
            Some(Token::Keyword(Keyword::Primary)) => {
                self.advance();
                match self.expect_keyword(Keyword::Key) {
                    Ok(()) => Ok(Some(Constraint::PrimaryKey)),
                    Err(e) => Err(e),
                }
            },
            Some(Token::Keyword(Keyword::Foreign)) => {
                self.advance();
                match self.parse_foreign_key() {
                    Ok(key) => Ok(Some(key)),
                    Err(e) => Err(e),
                }
            },
            Some(Token::Keyword(Keyword::Not)) => {
                self.advance();
                match self.expect_keyword(Keyword::Null) {
                    Ok(()) => Ok(Some(Constraint::NotNull)),
                    Err(e) => Err(e),
                }
            },
            Some(Token::Keyword(Keyword::Check)) => {
                self.advance();
                match self.peek() {
                    Some(Token::LeftParentheses) => {
                        self.advance();
                        let condition = match self.parse_expression() {
                            Ok(condition) => condition,
                            Err(e) => {
                                return Err(e);
                            },
                        };
                        match self.expect_token(Token::RightParentheses) {
                            Ok(()) => Ok(Some(Constraint::Check(condition))),
                            Err(e) => Err(e),
                        }
                    },
                    _ => Err(Error::ParserError("Expected '(' after CHECK".to_owned())),
                }
            },
            _ => Ok(None),
        }
    }

    /// Reads what stands after `FOREIGN`: `KEY (column) REFERENCES
    /// table(column)`.
    fn parse_foreign_key(&mut self) -> (r: Result<Constraint, Error>)
        ensures
            final(self).input() == old(self).input(),
            old(self).position() <= final(self).position(),
            agrees(r, final(self).position(), foreign_key(old(self).input(), old(self).position())),
    {
        match self.expect_keyword(Keyword::Key) {
            Ok(()) => {},
            Err(e) => {
                return Err(e);
            },
        }
        match self.expect_token(Token::LeftParentheses) {
            Ok(()) => {},
            Err(e) => {
                return Err(e);
            },
        }
        let column = match self.key_name("Expected column name, found ", "Missing column name") {
            Ok(name) => name,
            Err(e) => {
                return Err(e);
            },
        };
        match self.expect_token(Token::RightParentheses) {
            Ok(()) => {},
            Err(e) => {
                return Err(e);
            },
        }
        match self.expect_keyword(Keyword::References) {
            Ok(()) => {},
            Err(e) => {
                return Err(e);
            },
        }
        let referenced_table = match self.key_name(
            "Expected table name, found ",
            "Missing referenced table name",
        ) {
            Ok(name) => name,
            Err(e) => {
                return Err(e);
            },
        };
        match self.expect_token(Token::LeftParentheses) {
            Ok(()) => {},
            Err(e) => {
                return Err(e);
            },
        }
        let referenced_column = match self.key_name(
            "Expected column name, found ",
            "Missing referenced column name",
        ) {
            Ok(name) => name,
            Err(e) => {
                return Err(e);
            },
        };
        match self.expect_token(Token::RightParentheses) {
            Ok(()) => {},
            Err(e) => {
                return Err(e);
            },
        }
        Ok(Constraint::ForeignKey { column, referenced_table, referenced_column })
    }

    #[verifier::loop_isolation(false)]
    fn parse_expressions_list(&mut self) -> (r: Result<Vec<Expression>, Error>)
        ensures
            final(self).input() == old(self).input(),
            old(self).position() <= final(self).position(),
            list_agrees(
                r,
                final(self).position(),
                expressions_list(old(self).input(), old(self).position()),
            ),
    {
        let mut expressions: Vec<Expression> = Vec::new();
        assert(expression_views(expressions@) =~= Seq::empty());
        let is_wildcard = match self.peek() {
            Some(Token::Wildcard) => true,
            _ => false,
        };
        if is_wildcard {
            self.advance();
            expressions.push(Expression::Identifier("*".to_owned()));
            assert(expression_views(expressions@) =~= seq![ExpressionView::Identifier("*"@)]);
            return match self.peek() {
                Some(Token::Keyword(Keyword::From)) => Ok(expressions),
                Some(Token::Semicolon) => Ok(expressions),
                Some(token) => Err(
                    Error::UnexpectedToken {
                        expected: "FROM".to_owned(),
                        found: token.debug_string(),
                    },
                ),
                None => Err(Error::UnexpectedEOF),
            };
        }
        let ghost tokens = self.input();
        let ghost start = self.position();
        loop
            invariant
                self.input() == tokens,
                old(self).position() <= self.position(),
                0 <= self.position() <= tokens.len(),
                expression_items(tokens, self.position(), expression_views(expressions@))
                    == expression_items(tokens, start, Seq::empty()),
            decreases tokens.len() - self.position(),
        {
            proof {
                lemma_expression_advances(tokens, self.position(), 0);
            }
            let item = match self.parse_expression() {
                Ok(item) => item,
                Err(e) => {
                    return Err(e);
                },
            };
            assert(expression_views(expressions@.push(item)) =~= expression_views(
                expressions@,
            ).push(item@));
            expressions.push(item);
            match self.peek() {
                Some(Token::Comma) => {
                    self.advance();
                },
                Some(Token::Keyword(Keyword::From)) => {
                    return Ok(expressions);
                },
                Some(Token::Semicolon) => {
                    return Ok(expressions);
                },
                Some(token) => {
                    return Err(
                        Error::UnexpectedToken {
                            expected: "comma or FROM".to_owned(),
                            found: token.debug_string(),
                        },
                    );
                },
                None => {
                    return Err(Error::UnexpectedEOF);
                },
            }
        }
    }

    fn parse_expression(&mut self) -> (r: Result<Expression, Error>)
        ensures
            final(self).input() == old(self).input(),
            old(self).position() <= final(self).position(),
            agrees(r, final(self).position(), expression(old(self).input(), old(self).position())),
        decreases old(self).input().len() - old(self).position(), 3int,
    {
        self.parse_binary_expression(0)
    }

    #[verifier::loop_isolation(false)]
    fn parse_binary_expression(&mut self, min_precedence: u8) -> (r: Result<Expression, Error>)
        requires
            min_precedence <= 7,
        ensures
            final(self).input() == old(self).input(),
            old(self).position() <= final(self).position(),
            agrees(
                r,
                final(self).position(),
                binary_expression(old(self).input(), old(self).position(), min_precedence as nat),
            ),
        decreases old(self).input().len() - old(self).position(), 2int,
    {
        let ghost tokens = self.input();
        let ghost start = self.position();
        proof {
            lemma_expression_advances(tokens, start, min_precedence as nat);
        }
        let mut left = match self.parse_prefix_expression() {
            Ok(left) => left,
            Err(e) => {
                return Err(e);
            },
        };
        loop
            invariant
                self.input() == tokens,
                old(self).position() <= self.position(),
                start < self.position() <= tokens.len(),
                min_precedence <= 7,
                binary_tail(tokens, self.position(), min_precedence as nat, left@)
                    == binary_expression(tokens, start, min_precedence as nat),
            decreases tokens.len() - self.position(),
        {
            let precedence = match self.peek() {
                Some(token) => {
                    if Self::ends_expression(token) {
                        return Ok(left);
                    }
                    let precedence = self.get_binary_precedence(token);
                    if precedence < min_precedence {
                        return Ok(left);
                    }
                    precedence
                },
                None => {
                    return Ok(left);
                },
            };
            proof {
                lemma_expression_advances(tokens, self.position() + 1, (precedence + 1) as nat);
            }
            let operator = match self.parse_binary_operator() {
                Ok(operator) => operator,
                Err(_) => {
                    // No binary operator stands here: the expression is
                    // complete, and the token is left for the caller.
                    return Ok(left);
                },
            };
            let right = match self.parse_binary_expression(precedence + 1) {
                Ok(right) => right,
                Err(e) => {
                    return Err(e);
                },
            };
            left =
            Expression::BinaryOperation {
                left_operand: Box::new(left),
                operator,
                right_operand: Box::new(right),
            };
        }
    }

    /// Reads the expression that an operator before it takes as its
    /// operand.
    fn parse_unary_operation(&mut self, operator: UnaryOperator) -> (r: Result<Expression, Error>)
        ensures
            final(self).input() == old(self).input(),
            old(self).position() <= final(self).position(),
            agrees(
                r,
                final(self).position(),
                unary_operation(old(self).input(), old(self).position(), operator),
            ),
        decreases old(self).input().len() - old(self).position(), 4int,
    {
        match self.parse_expression() {
            Ok(operand) => Ok(Expression::UnaryOperation { operand: Box::new(operand), operator }),
            Err(e) => Err(e),
        }
    }

    fn parse_prefix_expression(&mut self) -> (r: Result<Expression, Error>)
        ensures
            final(self).input() == old(self).input(),
            old(self).position() <= final(self).position(),
            agrees(
                r,
                final(self).position(),
                prefix_expression(old(self).input(), old(self).position()),
            ),
        decreases old(self).input().len() - old(self).position(), 0int,
    {
        match self.peek() {
            Some(Token::Number(n)) => {
                let n = *n;
                self.advance();
                Ok(Expression::Number(n))
            },
            Some(Token::String(s)) => {
                let s = s.clone();
                self.advance();
                Ok(Expression::String(s))
            },
            Some(Token::Identifier(i)) => {
                let i = i.clone();
                self.advance();
                Ok(Expression::Identifier(i))
            },
            Some(Token::Keyword(Keyword::True)) => {
                self.advance();
                Ok(Expression::Bool(true))
            },
            Some(Token::Keyword(Keyword::False)) => {
                self.advance();
                Ok(Expression::Bool(false))
            },
            Some(Token::LeftParentheses) => {
                self.advance();
                let inner = match self.parse_expression() {
                    Ok(inner) => inner,
                    Err(e) => {
                        return Err(e);
                    },
                };
                match self.expect_token(Token::RightParentheses) {
                    Ok(()) => Ok(inner),
                    Err(e) => Err(e),
                }
            },
            Some(Token::Minus) => {
                self.advance();
                self.parse_unary_operation(UnaryOperator::Minus)
            },
            Some(Token::Plus) => {
                self.advance();
                self.parse_unary_operation(UnaryOperator::Plus)
            },
            Some(Token::Keyword(Keyword::Not)) => {
                self.advance();
                self.parse_unary_operation(UnaryOperator::Not)
            },
            Some(token) => Err(
                Error::ParserError(
                    joined("Unexpected token in prefix position: ", token.debug_string().as_str()),
                ),
            ),
            None => Err(Error::UnexpectedEOF),
        }
    }

    /// Reads the binary operator that stands here. A token that is none
    /// is refused and left standing.
    fn parse_binary_operator(&mut self) -> (r: Result<BinaryOperator, Error>)
        ensures
            final(self).input() == old(self).input(),
            old(self).position() <= final(self).position(),
            match token_at(old(self).input(), old(self).position()) {
                Some(t) => match binary_operator(t) {
                    Some(operator) => r == Ok::<BinaryOperator, Error>(operator)
                        && final(self).position() == old(self).position() + 1,
                    None => r matches Err(x) && x@ == ErrorView::ParserError(
                        "Unexpected token in operator position: "@ + t.debug_text(),
                    ),
                },
                None => r matches Err(x) && x@ == ErrorView::UnexpectedEOF,
            },
            r is Err ==> final(self).position() == old(self).position(),
    {
        let op = match self.peek() {
            Some(Token::Plus) => BinaryOperator::Plus,
            Some(Token::Minus) => BinaryOperator::Minus,
            Some(Token::Star) => BinaryOperator::Multiply,
            Some(Token::Divide) => BinaryOperator::Divide,
            Some(Token::Equal) => BinaryOperator::Equal,
            Some(Token::NotEqual) => BinaryOperator::NotEqual,
            Some(Token::GreaterThan) => BinaryOperator::GreaterThan,
            Some(Token::GreaterThanOrEqual) => BinaryOperator::GreaterThanOrEqual,
            Some(Token::LessThan) => BinaryOperator::LessThan,
            Some(Token::LessThanOrEqual) => BinaryOperator::LessThanOrEqual,
            Some(Token::Keyword(Keyword::And)) => BinaryOperator::And,
            Some(Token::Keyword(Keyword::Or)) => BinaryOperator::Or,
            Some(token) => {
                return Err(
                    Error::ParserError(
                        joined(
                            "Unexpected token in operator position: ",
                            token.debug_string().as_str(),
                        ),
                    ),
                );
            },
            None => {
                return Err(Error::UnexpectedEOF);
            },
        };
        self.advance();
        Ok(op)
    }

    fn get_binary_precedence(&self, token: &Token) -> (r: u8)
        ensures
            r == binary_precedence(token@),
            r <= 6,
    {
        match token {
            Token::Keyword(Keyword::Or) => 1,
            Token::Keyword(Keyword::And) => 2,
            Token::Equal | Token::NotEqual => 3,
            Token::GreaterThan
            | Token::GreaterThanOrEqual
            | Token::LessThan
            | Token::LessThanOrEqual => 4,
            Token::Plus | Token::Minus => 5,
            Token::Star | Token::Divide => 6,
            _ => 0,
        }
    }

    /// Whether the token ends an expression wherever it stands.
    fn ends_expression(token: &Token) -> (r: bool)
        ensures
            r == is_terminator(token@),
    {
        match token {
            Token::Semicolon => true,
            Token::Comma => true,
            Token::Keyword(Keyword::From) => true,
            Token::RightParentheses => true,
            Token::Keyword(Keyword::Order) => true,
            Token::Keyword(Keyword::Asc) => true,
            Token::Keyword(Keyword::Desc) => true,
            _ => false,
        }
    }

    fn peek(&self) -> (r: Option<&Token>)
        ensures
            match token_at(self.input(), self.position()) {
                Some(t) => r matches Some(x) && x@ == t,
                None => r is None,
            },
            0 <= self.position() <= self.input().len(),
    {
        proof {
            use_type_invariant(self);
        }
        if self.current < self.tokens.len() {
            Some(&self.tokens[self.current])
        } else {
            None
        }
    }

    fn advance(&mut self)
        requires
            token_at(old(self).input(), old(self).position()) is Some,
        ensures
            final(self).input() == old(self).input(),
            old(self).position() <= final(self).position(),
            final(self).position() == old(self).position() + 1,
    {
        proof {
            use_type_invariant(&*self);
        }
        self.current += 1;
    }

    fn expect_token(&mut self, expected: Token) -> (r: Result<(), Error>)
        ensures
            final(self).input() == old(self).input(),
            old(self).position() <= final(self).position(),
            step_agrees(
                r,
                final(self).position(),
                expect_token(old(self).input(), old(self).position(), expected@),
            ),
            r is Err ==> final(self).position() == old(self).position(),
    {
        match self.peek() {
            Some(token) => {
                if *token == expected {
                    self.advance();
                    Ok(())
                } else {
                    Err(
                        Error::UnexpectedToken {
                            expected: expected.debug_string(),
                            found: token.debug_string(),
                        },
                    )
                }
            },
            None => Err(Error::UnexpectedEOF),
        }
    }

    fn expect_keyword(&mut self, expected: Keyword) -> (r: Result<(), Error>)
        ensures
            final(self).input() == old(self).input(),
            old(self).position() <= final(self).position(),
            step_agrees(
                r,
                final(self).position(),
                expect_keyword(old(self).input(), old(self).position(), expected),
            ),
            r is Err ==> final(self).position() == old(self).position(),
    {
        match self.peek() {
            Some(token) => {
                let matched = match token {
                    Token::Keyword(keyword) => *keyword == expected,
                    _ => false,
                };
                if matched {
                    self.advance();
                    Ok(())
                } else {
                    Err(
                        Error::UnexpectedToken {
                            expected: expected.to_string(),
                            found: token.debug_string(),
                        },
                    )
                }
            },
            None => Err(Error::UnexpectedEOF),
        }
    }

    /// Reads an identifier. Another token is a parser error whose message
    /// is `prefix` and then the token.
    fn name(&mut self, prefix: &str) -> (r: Result<String, Error>)
        ensures
            final(self).input() == old(self).input(),
            old(self).position() <= final(self).position(),
            agrees(
                r,
                final(self).position(),
                name_at(old(self).input(), old(self).position(), prefix@),
            ),
            r is Err ==> final(self).position() == old(self).position(),
    {
        match self.peek() {
            Some(Token::Identifier(name)) => {
                let name = name.clone();
                self.advance();
                Ok(name)
            },
            Some(token) => Err(Error::ParserError(joined(prefix, token.debug_string().as_str()))),
            None => Err(Error::UnexpectedEOF),
        }
    }

    /// Reads an identifier inside a `FOREIGN KEY` clause.
    fn key_name(&mut self, prefix: &str, missing: &str) -> (r: Result<String, Error>)
        ensures
            final(self).input() == old(self).input(),
            old(self).position() <= final(self).position(),
            agrees(
                r,
                final(self).position(),
                key_name_at(old(self).input(), old(self).position(), prefix@, missing@),
            ),
            r is Err ==> final(self).position() == old(self).position(),
    {
        match self.peek() {
            Some(Token::Identifier(name)) => {
                let name = name.clone();
                self.advance();
                Ok(name)
            },
            Some(token) => Err(
                Error::InvalidForeignKey(joined(prefix, token.debug_string().as_str())),
            ),
            None => Err(Error::InvalidForeignKey(missing.to_owned())),
        }
    }
}

} // verus!
