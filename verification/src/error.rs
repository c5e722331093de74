//! The errors of tokenizing and parsing.

use vstd::prelude::*;
use crate::text::joined;
use vstd::string::StringExecFns;

verus! {

/// Why a text could not be turned into a statement. The first error ends
/// the work: nothing is recovered and no partial result is handed out.
#[derive(Debug)]
pub enum Error {
    /// The text holds something that is no token.
    LexerError(String),
    /// The tokens break the grammar in a way that no other variant names.
    ParserError(String),
    /// One token was asked for and another was found.
    UnexpectedToken {
        /// What the parser asked for.
        expected: String,
        /// What stood in the input.
        found: String,
    },
    /// The tokens ended in the middle of a rule.
    UnexpectedEOF,
    /// `VARCHAR` without a length, or with a length that is no number.
    InvalidVarcharLength(String),
    /// A `SELECT` statement without `FROM`.
    MissingFromClause,
    /// A `FOREIGN KEY` clause that is malformed or names a column that
    /// the table does not have yet.
    InvalidForeignKey(String),
}

/// The model of an error: its messages are sequences of characters.
pub enum ErrorView {
    LexerError(Seq<char>),
    ParserError(Seq<char>),
    UnexpectedToken { expected: Seq<char>, found: Seq<char> },
    UnexpectedEOF,
    InvalidVarcharLength(Seq<char>),
    MissingFromClause,
    InvalidForeignKey(Seq<char>),
}

impl View for Error {
    type V = ErrorView;

    open spec fn view(&self) -> ErrorView {
        match self {
            Error::LexerError(m) => ErrorView::LexerError(m@),
            Error::ParserError(m) => ErrorView::ParserError(m@),
            Error::UnexpectedToken { expected, found } => ErrorView::UnexpectedToken {
                expected: expected@,
                found: found@,
            },
            Error::UnexpectedEOF => ErrorView::UnexpectedEOF,
            Error::InvalidVarcharLength(m) => ErrorView::InvalidVarcharLength(m@),
            Error::MissingFromClause => ErrorView::MissingFromClause,
            Error::InvalidForeignKey(m) => ErrorView::InvalidForeignKey(m@),
        }
    }
}

impl ErrorView {
    /// The error as one line for a reader.
    pub open spec fn display_text(self) -> Seq<char> {
        match self {
            ErrorView::LexerError(m) => "Lexer error: "@ + m,
            ErrorView::ParserError(m) => "Parser error: "@ + m,
            ErrorView::UnexpectedToken { expected, found } => "Unexpected token: expected "@
                + expected + ", found "@ + found,
            ErrorView::UnexpectedEOF => "Unexpected end of input"@,
            ErrorView::InvalidVarcharLength(m) => "Invalid VARCHAR length: "@ + m,
            ErrorView::MissingFromClause => "Missing FROM clause in SELECT statement"@,
            ErrorView::InvalidForeignKey(m) => "Invalid FOREIGN KEY constraint: "@ + m,
        }
    }
}

impl Error {
    /// The error as one line for a reader.
    pub fn to_string(&self) -> (r: String)
        ensures
            r@ == self@.display_text(),
    {
        match self {
            Error::LexerError(m) => joined("Lexer error: ", m.as_str()),
            Error::ParserError(m) => joined("Parser error: ", m.as_str()),
            Error::UnexpectedToken { expected, found } => {
                let mut r = joined("Unexpected token: expected ", expected.as_str());
                r.append(", found ");
                r.append(found.as_str());
                r
            },
            Error::UnexpectedEOF => "Unexpected end of input".to_owned(),
            Error::InvalidVarcharLength(m) => joined("Invalid VARCHAR length: ", m.as_str()),
            Error::MissingFromClause => "Missing FROM clause in SELECT statement".to_owned(),
            Error::InvalidForeignKey(m) => joined("Invalid FOREIGN KEY constraint: ", m.as_str()),
        }
    }
}

} // verus!
