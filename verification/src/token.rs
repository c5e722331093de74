//! Tokens: the lexical units of a statement.

use vstd::prelude::*;
use crate::text::{debug_quoted, decimal_text, joined, push_decimal, quoted};
use vstd::string::StrSliceExecFns;
use vstd::string::StringExecFns;

verus! {

/// The reserved words. A word is matched without regard to case.
#[derive(Clone, Copy, Debug, PartialEq, Eq, Structural)]
pub enum Keyword {
    Select,
    Create,
    Table,
    Where,
    Order,
    By,
    Asc,
    Desc,
    From,
    And,
    Or,
    Not,
    True,
    False,
    Primary,
    Key,
    Foreign,
    References,
    Check,
    Int,
    Bool,
    Varchar,
    Null,
    Index,
    Unique,
    On,
}

impl Keyword {
    /// The word as it is written in a statement, in upper case.
    pub open spec fn spelling_text(self) -> Seq<char> {
        match self {
            Keyword::Select => "SELECT"@,
            Keyword::Create => "CREATE"@,
            Keyword::Table => "TABLE"@,
            Keyword::Where => "WHERE"@,
            Keyword::Order => "ORDER"@,
            Keyword::By => "BY"@,
            Keyword::Asc => "ASC"@,
            Keyword::Desc => "DESC"@,
            Keyword::From => "FROM"@,
            Keyword::And => "AND"@,
            Keyword::Or => "OR"@,
            Keyword::Not => "NOT"@,
            Keyword::True => "TRUE"@,
            Keyword::False => "FALSE"@,
            Keyword::Primary => "PRIMARY"@,
            Keyword::Key => "KEY"@,
            Keyword::Foreign => "FOREIGN"@,
            Keyword::References => "REFERENCES"@,
            Keyword::Check => "CHECK"@,
            Keyword::Int => "INT"@,
            Keyword::Bool => "BOOL"@,
            Keyword::Varchar => "VARCHAR"@,
            Keyword::Null => "NULL"@,
            Keyword::Index => "INDEX"@,
            Keyword::Unique => "UNIQUE"@,
            Keyword::On => "ON"@,
        }
    }

    /// The name of the variant, which is what the keyword is shown as.
    pub open spec fn name_text(self) -> Seq<char> {
        match self {
            Keyword::Select => "Select"@,
            Keyword::Create => "Create"@,
            Keyword::Table => "Table"@,
            Keyword::Where => "Where"@,
            Keyword::Order => "Order"@,
            Keyword::By => "By"@,
            Keyword::Asc => "Asc"@,
            Keyword::Desc => "Desc"@,
            Keyword::From => "From"@,
            Keyword::And => "And"@,
            Keyword::Or => "Or"@,
            Keyword::Not => "Not"@,
            Keyword::True => "True"@,
            Keyword::False => "False"@,
            Keyword::Primary => "Primary"@,
            Keyword::Key => "Key"@,
            Keyword::Foreign => "Foreign"@,
            Keyword::References => "References"@,
            Keyword::Check => "Check"@,
            Keyword::Int => "Int"@,
            Keyword::Bool => "Bool"@,
            Keyword::Varchar => "Varchar"@,
            Keyword::Null => "Null"@,
            Keyword::Index => "Index"@,
            Keyword::Unique => "Unique"@,
            Keyword::On => "On"@,
        }
    }

    /// The word as it is written in a statement, in upper case.
    pub fn spelling(self) -> (r: &'static str)
        ensures
            r@ == self.spelling_text(),
    {
        match self {
            Keyword::Select => "SELECT",
            Keyword::Create => "CREATE",
            Keyword::Table => "TABLE",
            Keyword::Where => "WHERE",
            Keyword::Order => "ORDER",
            Keyword::By => "BY",
            Keyword::Asc => "ASC",
            Keyword::Desc => "DESC",
            Keyword::From => "FROM",
            Keyword::And => "AND",
            Keyword::Or => "OR",
            Keyword::Not => "NOT",
            Keyword::True => "TRUE",
            Keyword::False => "FALSE",
            Keyword::Primary => "PRIMARY",
            Keyword::Key => "KEY",
            Keyword::Foreign => "FOREIGN",
            Keyword::References => "REFERENCES",
            Keyword::Check => "CHECK",
            Keyword::Int => "INT",
            Keyword::Bool => "BOOL",
            Keyword::Varchar => "VARCHAR",
            Keyword::Null => "NULL",
            Keyword::Index => "INDEX",
            Keyword::Unique => "UNIQUE",
            Keyword::On => "ON",
        }
    }

    /// The name of the variant.
    pub fn name(self) -> (r: &'static str)
        ensures
            r@ == self.name_text(),
    {
        match self {
            Keyword::Select => "Select",
            Keyword::Create => "Create",
            Keyword::Table => "Table",
            Keyword::Where => "Where",
            Keyword::Order => "Order",
            Keyword::By => "By",
            Keyword::Asc => "Asc",
            Keyword::Desc => "Desc",
            Keyword::From => "From",
            Keyword::And => "And",
            Keyword::Or => "Or",
            Keyword::Not => "Not",
            Keyword::True => "True",
            Keyword::False => "False",
            Keyword::Primary => "Primary",
            Keyword::Key => "Key",
            Keyword::Foreign => "Foreign",
            Keyword::References => "References",
            Keyword::Check => "Check",
            Keyword::Int => "Int",
            Keyword::Bool => "Bool",
            Keyword::Varchar => "Varchar",
            Keyword::Null => "Null",
            Keyword::Index => "Index",
            Keyword::Unique => "Unique",
            Keyword::On => "On",
        }
    }

    /// The keyword as shown to a reader: the name of its variant.
    pub fn to_string(&self) -> (r: String)
        ensures
            r@ == self.name_text(),
    {
        self.name().to_owned()
    }
}

/// The keyword that `word` spells, if it spells one. The word is compared
/// as it stands: the tokenizer hands over words in upper case.
pub open spec fn keyword_of(word: Seq<char>) -> Option<Keyword> {
    if word == Keyword::Select.spelling_text() {
        Some(Keyword::Select)
    } else if word == Keyword::Create.spelling_text() {
        Some(Keyword::Create)
    } else if word == Keyword::Table.spelling_text() {
        Some(Keyword::Table)
    } else if word == Keyword::Where.spelling_text() {
        Some(Keyword::Where)
    } else if word == Keyword::Order.spelling_text() {
        Some(Keyword::Order)
    } else if word == Keyword::By.spelling_text() {
        Some(Keyword::By)
    } else if word == Keyword::Asc.spelling_text() {
        Some(Keyword::Asc)
    } else if word == Keyword::Desc.spelling_text() {
        Some(Keyword::Desc)
    } else if word == Keyword::From.spelling_text() {
        Some(Keyword::From)
    } else if word == Keyword::And.spelling_text() {
        Some(Keyword::And)
    } else if word == Keyword::Or.spelling_text() {
        Some(Keyword::Or)
    } else if word == Keyword::Not.spelling_text() {
        Some(Keyword::Not)
    } else if word == Keyword::True.spelling_text() {
        Some(Keyword::True)
    } else if word == Keyword::False.spelling_text() {
        Some(Keyword::False)
    } else if word == Keyword::Primary.spelling_text() {
        Some(Keyword::Primary)
    } else if word == Keyword::Key.spelling_text() {
        Some(Keyword::Key)
    } else if word == Keyword::Foreign.spelling_text() {
        Some(Keyword::Foreign)
    } else if word == Keyword::References.spelling_text() {
        Some(Keyword::References)
    } else if word == Keyword::Check.spelling_text() {
        Some(Keyword::Check)
    } else if word == Keyword::Int.spelling_text() {
        Some(Keyword::Int)
    } else if word == Keyword::Bool.spelling_text() {
        Some(Keyword::Bool)
    } else if word == Keyword::Varchar.spelling_text() {
        Some(Keyword::Varchar)
    } else if word == Keyword::Null.spelling_text() {
        Some(Keyword::Null)
    } else if word == Keyword::Index.spelling_text() {
        Some(Keyword::Index)
    } else if word == Keyword::Unique.spelling_text() {
        Some(Keyword::Unique)
    } else if word == Keyword::On.spelling_text() {
        Some(Keyword::On)
    } else {
        None
    }
}

/// Whether `word` holds the characters of `literal`.
pub fn spells(word: &Vec<char>, literal: &str) -> (r: bool)
    ensures
        r == (word@ == literal@),
{
    if word.len() != literal.unicode_len() {
        return false;
    }
    let mut i: usize = 0;
    while i < word.len()
        invariant
            word@.len() == literal@.len(),
            i <= word.len(),
            forall|j: int| 0 <= j < i ==> word@[j] == literal@[j],
        decreases word.len() - i,
    {
        if word[i] != literal.get_char(i) {
            return false;
        }
        i += 1;
    }
    assert(word@ =~= literal@);
    true
}

/// Looks `word` up among the reserved words.
pub fn lookup_keyword(word: &Vec<char>) -> (r: Option<Keyword>)
    ensures
        r == keyword_of(word@),
{
    if spells(word, Keyword::Select.spelling()) {
        Some(Keyword::Select)
    } else if spells(word, Keyword::Create.spelling()) {
        Some(Keyword::Create)
    } else if spells(word, Keyword::Table.spelling()) {
        Some(Keyword::Table)
    } else if spells(word, Keyword::Where.spelling()) {
        Some(Keyword::Where)
    } else if spells(word, Keyword::Order.spelling()) {
        Some(Keyword::Order)
    } else if spells(word, Keyword::By.spelling()) {
        Some(Keyword::By)
    } else if spells(word, Keyword::Asc.spelling()) {
        Some(Keyword::Asc)
    } else if spells(word, Keyword::Desc.spelling()) {
        Some(Keyword::Desc)
    } else if spells(word, Keyword::From.spelling()) {
        Some(Keyword::From)
    } else if spells(word, Keyword::And.spelling()) {
        Some(Keyword::And)
    } else if spells(word, Keyword::Or.spelling()) {
        Some(Keyword::Or)
    } else if spells(word, Keyword::Not.spelling()) {
        Some(Keyword::Not)
    } else if spells(word, Keyword::True.spelling()) {
        Some(Keyword::True)
    } else if spells(word, Keyword::False.spelling()) {
        Some(Keyword::False)
    } else if spells(word, Keyword::Primary.spelling()) {
        Some(Keyword::Primary)
    } else if spells(word, Keyword::Key.spelling()) {
        Some(Keyword::Key)
    } else if spells(word, Keyword::Foreign.spelling()) {
        Some(Keyword::Foreign)
    } else if spells(word, Keyword::References.spelling()) {
        Some(Keyword::References)
    } else if spells(word, Keyword::Check.spelling()) {
        Some(Keyword::Check)
    } else if spells(word, Keyword::Int.spelling()) {
        Some(Keyword::Int)
    } else if spells(word, Keyword::Bool.spelling()) {
        Some(Keyword::Bool)
    } else if spells(word, Keyword::Varchar.spelling()) {
        Some(Keyword::Varchar)
    } else if spells(word, Keyword::Null.spelling()) {
        Some(Keyword::Null)
    } else if spells(word, Keyword::Index.spelling()) {
        Some(Keyword::Index)
    } else if spells(word, Keyword::Unique.spelling()) {
        Some(Keyword::Unique)
    } else if spells(word, Keyword::On.spelling()) {
        Some(Keyword::On)
    } else {
        None
    }
}

/// A token. Identifiers and keywords are held in upper case; the content of
/// a string literal is held as it was written.
#[derive(Debug)]
pub enum Token {
    Keyword(Keyword),
    Identifier(String),
    String(String),
    Number(u64),
    Plus,
    Minus,
    Star,
    Divide,
    Equal,
    NotEqual,
    LessThan,
    GreaterThan,
    LessThanOrEqual,
    GreaterThanOrEqual,
    LeftParentheses,
    RightParentheses,
    Comma,
    Semicolon,
    /// `*` where it stands for all columns.
    Wildcard,
    /// The end of the input: the last token of every sequence.
    Eof,
}

/// The model of a token: its texts are sequences of characters.
pub enum TokenView {
    Keyword(Keyword),
    Identifier(Seq<char>),
    String(Seq<char>),
    Number(u64),
    Plus,
    Minus,
    Star,
    Divide,
    Equal,
    NotEqual,
    LessThan,
    GreaterThan,
    LessThanOrEqual,
    GreaterThanOrEqual,
    LeftParentheses,
    RightParentheses,
    Comma,
    Semicolon,
    Wildcard,
    Eof,
}

impl View for Token {
    type V = TokenView;

    open spec fn view(&self) -> TokenView {
        match self {
            Token::Keyword(k) => TokenView::Keyword(*k),
            Token::Identifier(s) => TokenView::Identifier(s@),
            Token::String(s) => TokenView::String(s@),
            Token::Number(n) => TokenView::Number(*n),
            Token::Plus => TokenView::Plus,
            Token::Minus => TokenView::Minus,
            Token::Star => TokenView::Star,
            Token::Divide => TokenView::Divide,
            Token::Equal => TokenView::Equal,
            Token::NotEqual => TokenView::NotEqual,
            Token::LessThan => TokenView::LessThan,
            Token::GreaterThan => TokenView::GreaterThan,
            Token::LessThanOrEqual => TokenView::LessThanOrEqual,
            Token::GreaterThanOrEqual => TokenView::GreaterThanOrEqual,
            Token::LeftParentheses => TokenView::LeftParentheses,
            Token::RightParentheses => TokenView::RightParentheses,
            Token::Comma => TokenView::Comma,
            Token::Semicolon => TokenView::Semicolon,
            Token::Wildcard => TokenView::Wildcard,
            Token::Eof => TokenView::Eof,
        }
    }
}

/// The models of a sequence of tokens.
pub open spec fn token_views(tokens: Seq<Token>) -> Seq<TokenView> {
    tokens.map_values(|t: Token| t@)
}

impl TokenView {
    /// What `{:?}` writes for the token: the variant's name and, where the
    /// variant holds a value, that value between round brackets.
    pub open spec fn debug_text(self) -> Seq<char> {
        match self {
            TokenView::Keyword(k) => "Keyword("@ + k.name_text() + ")"@,
            TokenView::Identifier(s) => "Identifier("@ + debug_quoted(s) + ")"@,
            TokenView::String(s) => "String("@ + debug_quoted(s) + ")"@,
            TokenView::Number(n) => "Number("@ + decimal_text(n as nat) + ")"@,
            TokenView::Plus => "Plus"@,
            TokenView::Minus => "Minus"@,
            TokenView::Star => "Star"@,
            TokenView::Divide => "Divide"@,
            TokenView::Equal => "Equal"@,
            TokenView::NotEqual => "NotEqual"@,
            TokenView::LessThan => "LessThan"@,
            TokenView::GreaterThan => "GreaterThan"@,
            TokenView::LessThanOrEqual => "LessThanOrEqual"@,
            TokenView::GreaterThanOrEqual => "GreaterThanOrEqual"@,
            TokenView::LeftParentheses => "LeftParentheses"@,
            TokenView::RightParentheses => "RightParentheses"@,
            TokenView::Comma => "Comma"@,
            TokenView::Semicolon => "Semicolon"@,
            TokenView::Wildcard => "Wildcard"@,
            TokenView::Eof => "Eof"@,
        }
    }

    /// The token as shown to a reader: a keyword by its name, a text
    /// between quotes, a number in decimal digits, an operator or a
    /// punctuation mark by its sign. Of the two round brackets each is
    /// shown by the sign of the other: `LeftParentheses` as `)` and
    /// `RightParentheses` as `(`.
    pub open spec fn display_text(self) -> Seq<char> {
        match self {
            TokenView::Keyword(k) => k.name_text(),
            TokenView::Identifier(s) => debug_quoted(s),
            TokenView::String(s) => debug_quoted(s),
            TokenView::Number(n) => decimal_text(n as nat),
            TokenView::Plus => "+"@,
            TokenView::Minus => "-"@,
            TokenView::Star => "*"@,
            TokenView::Divide => "/"@,
            TokenView::Equal => "="@,
            TokenView::NotEqual => "!="@,
            TokenView::LessThan => "<"@,
            TokenView::GreaterThan => ">"@,
            TokenView::LessThanOrEqual => "<="@,
            TokenView::GreaterThanOrEqual => ">="@,
            TokenView::LeftParentheses => ")"@,
            TokenView::RightParentheses => "("@,
            TokenView::Comma => ","@,
            TokenView::Semicolon => ";"@,
            TokenView::Wildcard => "*"@,
            TokenView::Eof => "Eof"@,
        }
    }
}

impl Clone for Token {
    fn clone(&self) -> (r: Token)
        ensures
            r@ == self@,
    {
        match self {
            Token::Keyword(k) => Token::Keyword(*k),
            Token::Identifier(s) => Token::Identifier(s.clone()),
            Token::String(s) => Token::String(s.clone()),
            Token::Number(n) => Token::Number(*n),
            Token::Plus => Token::Plus,
            Token::Minus => Token::Minus,
            Token::Star => Token::Star,
            Token::Divide => Token::Divide,
            Token::Equal => Token::Equal,
            Token::NotEqual => Token::NotEqual,
            Token::LessThan => Token::LessThan,
            Token::GreaterThan => Token::GreaterThan,
            Token::LessThanOrEqual => Token::LessThanOrEqual,
            Token::GreaterThanOrEqual => Token::GreaterThanOrEqual,
            Token::LeftParentheses => Token::LeftParentheses,
            Token::RightParentheses => Token::RightParentheses,
            Token::Comma => Token::Comma,
            Token::Semicolon => Token::Semicolon,
            Token::Wildcard => Token::Wildcard,
            Token::Eof => Token::Eof,
        }
    }
}

impl PartialEq for Token {
    fn eq(&self, other: &Token) -> (r: bool) {
        match (self, other) {
            (Token::Keyword(a), Token::Keyword(b)) => *a == *b,
            (Token::Identifier(a), Token::Identifier(b)) => *a == *b,
            (Token::String(a), Token::String(b)) => *a == *b,
            (Token::Number(a), Token::Number(b)) => *a == *b,
            (Token::Plus, Token::Plus) => true,
            (Token::Minus, Token::Minus) => true,
            (Token::Star, Token::Star) => true,
            (Token::Divide, Token::Divide) => true,
            (Token::Equal, Token::Equal) => true,
            (Token::NotEqual, Token::NotEqual) => true,
            (Token::LessThan, Token::LessThan) => true,
            (Token::GreaterThan, Token::GreaterThan) => true,
            (Token::LessThanOrEqual, Token::LessThanOrEqual) => true,
            (Token::GreaterThanOrEqual, Token::GreaterThanOrEqual) => true,
            (Token::LeftParentheses, Token::LeftParentheses) => true,
            (Token::RightParentheses, Token::RightParentheses) => true,
            (Token::Comma, Token::Comma) => true,
            (Token::Semicolon, Token::Semicolon) => true,
            (Token::Wildcard, Token::Wildcard) => true,
            (Token::Eof, Token::Eof) => true,
            _ => false,
        }
    }
}

impl vstd::std_specs::cmp::PartialEqSpecImpl for Token {
    open spec fn obeys_eq_spec() -> bool {
        true
    }

    /// Two tokens are equal when their models are.
    open spec fn eq_spec(&self, other: &Token) -> bool {
        self@ == other@
    }
}

impl Token {
    /// The token as `{:?}` writes it.
    pub fn debug_string(&self) -> (r: String)
        ensures
            r@ == self@.debug_text(),
    {
        match self {
            Token::Keyword(k) => joined(joined("Keyword(", k.name()).as_str(), ")"),
            Token::Identifier(s) => joined(
                joined("Identifier(", quoted(s.as_str()).as_str()).as_str(),
                ")",
            ),
            Token::String(s) => joined(
                joined("String(", quoted(s.as_str()).as_str()).as_str(),
                ")",
            ),
            Token::Number(n) => {
                let mut r = "Number(".to_owned();
                push_decimal(&mut r, *n);
                r.append(")");
                r
            },
            Token::Plus => "Plus".to_owned(),
            Token::Minus => "Minus".to_owned(),
            Token::Star => "Star".to_owned(),
            Token::Divide => "Divide".to_owned(),
            Token::Equal => "Equal".to_owned(),
            Token::NotEqual => "NotEqual".to_owned(),
            Token::LessThan => "LessThan".to_owned(),
            Token::GreaterThan => "GreaterThan".to_owned(),
            Token::LessThanOrEqual => "LessThanOrEqual".to_owned(),
            Token::GreaterThanOrEqual => "GreaterThanOrEqual".to_owned(),
            Token::LeftParentheses => "LeftParentheses".to_owned(),
            Token::RightParentheses => "RightParentheses".to_owned(),
            Token::Comma => "Comma".to_owned(),
            Token::Semicolon => "Semicolon".to_owned(),
            Token::Wildcard => "Wildcard".to_owned(),
            Token::Eof => "Eof".to_owned(),
        }
    }

    /// The token as shown to a reader.
    pub fn to_string(&self) -> (r: String)
        ensures
            r@ == self@.display_text(),
    {
        match self {
            Token::Keyword(k) => k.to_string(),
            Token::Identifier(s) => quoted(s.as_str()),
            Token::String(s) => quoted(s.as_str()),
            Token::Number(n) => crate::text::decimal_string(*n),
            Token::Plus => "+".to_owned(),
            Token::Minus => "-".to_owned(),
            Token::Star => "*".to_owned(),
            Token::Divide => "/".to_owned(),
            Token::Equal => "=".to_owned(),
            Token::NotEqual => "!=".to_owned(),
            Token::LessThan => "<".to_owned(),
            Token::GreaterThan => ">".to_owned(),
            Token::LessThanOrEqual => "<=".to_owned(),
            Token::GreaterThanOrEqual => ">=".to_owned(),
            Token::LeftParentheses => ")".to_owned(),
            Token::RightParentheses => "(".to_owned(),
            Token::Comma => ",".to_owned(),
            Token::Semicolon => ";".to_owned(),
            Token::Wildcard => "*".to_owned(),
            Token::Eof => "Eof".to_owned(),
        }
    }
}

} // verus!
