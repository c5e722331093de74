//! A front end for a small SQL dialect: a text is split into tokens, and
//! the tokens are parsed into a `SELECT`, `CREATE TABLE` or `CREATE INDEX`
//! statement.
//!
//! Every function states its result over a mathematical model of its input:
//! a text is a `Seq<char>`, and each data type has a view that holds its
//! strings as such sequences. `scan` is the model of tokenizing and
//! `grammar` the model of parsing; `tokenizer` and `parser` do the work and
//! are proved to give what the models say.

use vstd::prelude::*;

pub mod chars;
pub mod error;
pub mod grammar;
pub mod laws;
pub mod parser;
pub mod scan;
pub mod statement;
pub mod text;
pub mod token;
pub mod tokenizer;

use crate::error::{Error, ErrorView};
use crate::parser::Parser;
use crate::statement::{Statement, StatementView};
use crate::tokenizer::Tokenizer;

verus! {

/// The statement that a text stands for: its tokens, parsed. The first
/// error ends the work and is the result as it is: a lexical error comes
/// from tokenizing, and the tokens of such a text are never parsed.
pub open spec fn statement_of(text: Seq<char>) -> Result<StatementView, ErrorView> {
    match scan::lex(text) {
        Ok(tokens) => grammar::parse(tokens),
        Err(e) => Err(e),
    }
}

/// Tokenizes and parses `input`.
pub fn build_statement(input: &str) -> (r: Result<Statement, Error>)
    ensures
        match statement_of(input@) {
            Ok(parsed) => r matches Ok(s) && s@ == parsed,
            Err(e) => r matches Err(x) && x@ == e,
        },
{
    let mut tokenizer = Tokenizer::new(input);
    let tokens = match tokenizer.tokenize() {
        Ok(tokens) => tokens,
        Err(e) => {
            return Err(e);
        },
    };
    let mut parser = Parser::new(tokens);
    parser.parse()
}

} // verus!
