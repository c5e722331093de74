use sql_parser::chars::{
    is_digit, is_letter, is_lower, is_quote, is_space, is_word_part, is_word_start, to_digit,
    to_upper,
};
use sql_parser::error::Error;
use sql_parser::text::{chars_of, decimal_string, joined, push_decimal, string_of, with_char};
use sql_parser::token::{lookup_keyword, spells, Keyword, Token};
use sql_parser::tokenizer::Tokenizer;

fn all_keywords() -> Vec<Keyword> {
    vec![
        Keyword::Select,
        Keyword::Create,
        Keyword::Table,
        Keyword::Where,
        Keyword::Order,
        Keyword::By,
        Keyword::Asc,
        Keyword::Desc,
        Keyword::From,
        Keyword::And,
        Keyword::Or,
        Keyword::Not,
        Keyword::True,
        Keyword::False,
        Keyword::Primary,
        Keyword::Key,
        Keyword::Foreign,
        Keyword::References,
        Keyword::Check,
        Keyword::Int,
        Keyword::Bool,
        Keyword::Varchar,
        Keyword::Null,
        Keyword::Index,
        Keyword::Unique,
        Keyword::On,
    ]
}

fn all_tokens() -> Vec<Token> {
    vec![
        Token::Keyword(Keyword::Select),
        Token::Keyword(Keyword::References),
        Token::Identifier("USERS".to_string()),
        Token::Identifier("a\"b".to_string()),
        Token::String("it's a \\ \n\t test \u{7f} é".to_string()),
        Token::String(String::new()),
        Token::Number(0),
        Token::Number(42),
        Token::Number(u64::MAX),
        Token::Plus,
        Token::Minus,
        Token::Star,
        Token::Divide,
        Token::Equal,
        Token::NotEqual,
        Token::LessThan,
        Token::GreaterThan,
        Token::LessThanOrEqual,
        Token::GreaterThanOrEqual,
        Token::LeftParentheses,
        Token::RightParentheses,
        Token::Comma,
        Token::Semicolon,
        Token::Wildcard,
        Token::Eof,
    ]
}

#[test]
fn every_keyword_is_found_by_its_spelling() {
    for keyword in all_keywords() {
        let word = chars_of(keyword.spelling());
        assert_eq!(lookup_keyword(&word), Some(keyword));
        assert_eq!(keyword.spelling(), keyword.name().to_uppercase());
        let lower = keyword.spelling().to_lowercase();
        assert_eq!(
            Tokenizer::new(&lower).tokenize().unwrap(),
            vec![Token::Keyword(keyword), Token::Eof]
        );
    }
    assert_eq!(all_keywords().len(), 26);
}

#[test]
fn other_words_are_no_keywords() {
    assert_eq!(lookup_keyword(&chars_of("SELEC")), None);
    assert_eq!(lookup_keyword(&chars_of("SELECTS")), None);
    assert_eq!(lookup_keyword(&chars_of("select")), None);
    assert_eq!(lookup_keyword(&chars_of("")), None);
    assert_eq!(
        Tokenizer::new("selects _on by2").tokenize().unwrap(),
        vec![
            Token::Identifier("SELECTS".to_string()),
            Token::Identifier("_ON".to_string()),
            Token::Identifier("BY2".to_string()),
            Token::Eof,
        ]
    );
}

#[test]
fn spells_compares_character_by_character() {
    assert!(spells(&chars_of("KEY"), "KEY"));
    assert!(!spells(&chars_of("KEY"), "KEYS"));
    assert!(!spells(&chars_of("KEY"), "KEX"));
    assert!(spells(&chars_of(""), ""));
    assert!(spells(&chars_of("é"), "é"));
}

#[test]
fn keyword_names() {
    assert_eq!(Keyword::Select.name(), "Select");
    assert_eq!(Keyword::References.to_string(), "References");
    assert_eq!(Keyword::On.spelling(), "ON");
    for keyword in all_keywords() {
        assert_eq!(keyword.to_string(), format!("{:?}", keyword));
    }
}

#[test]
fn debug_string_is_what_the_formatter_writes() {
    for token in all_tokens() {
        assert_eq!(token.debug_string(), format!("{:?}", token));
    }
    assert_eq!(Token::Identifier("A".to_string()).debug_string(), "Identifier(\"A\")");
    assert_eq!(Token::String("a\"b".to_string()).debug_string(), "String(\"a\\\"b\")");
    assert_eq!(Token::Number(18).debug_string(), "Number(18)");
    assert_eq!(Token::Keyword(Keyword::By).debug_string(), "Keyword(By)");
    assert_eq!(Token::LeftParentheses.debug_string(), "LeftParentheses");
}

#[test]
fn tokens_as_shown_to_a_reader() {
    assert_eq!(Token::Keyword(Keyword::Select).to_string(), "Select");
    assert_eq!(Token::Identifier("users".to_string()).to_string(), "\"users\"");
    assert_eq!(Token::String("a b".to_string()).to_string(), "\"a b\"");
    assert_eq!(Token::Number(255).to_string(), "255");
    assert_eq!(Token::RightParentheses.to_string(), "(");
    assert_eq!(Token::LeftParentheses.to_string(), ")");
    assert_eq!(Token::GreaterThan.to_string(), ">");
    assert_eq!(Token::GreaterThanOrEqual.to_string(), ">=");
    assert_eq!(Token::LessThan.to_string(), "<");
    assert_eq!(Token::LessThanOrEqual.to_string(), "<=");
    assert_eq!(Token::Equal.to_string(), "=");
    assert_eq!(Token::NotEqual.to_string(), "!=");
    assert_eq!(Token::Star.to_string(), "*");
    assert_eq!(Token::Wildcard.to_string(), "*");
    assert_eq!(Token::Divide.to_string(), "/");
    assert_eq!(Token::Minus.to_string(), "-");
    assert_eq!(Token::Plus.to_string(), "+");
    assert_eq!(Token::Comma.to_string(), ",");
    assert_eq!(Token::Semicolon.to_string(), ";");
    assert_eq!(Token::Eof.to_string(), "Eof");
}

#[test]
fn tokens_compare_by_what_they_hold() {
    let tokens = all_tokens();
    for (i, a) in tokens.iter().enumerate() {
        for (j, b) in tokens.iter().enumerate() {
            assert_eq!(a == b, i == j);
        }
        assert_eq!(a.clone(), *a);
    }
    assert_ne!(Token::Identifier("A".to_string()), Token::String("A".to_string()));
    assert_ne!(Token::Star, Token::Wildcard);
}

#[test]
fn decimal_notation() {
    assert_eq!(decimal_string(0), "0");
    assert_eq!(decimal_string(7), "7");
    assert_eq!(decimal_string(10), "10");
    assert_eq!(decimal_string(1905), "1905");
    assert_eq!(decimal_string(u64::MAX), "18446744073709551615");
    let mut s = String::from("n=");
    push_decimal(&mut s, 120);
    assert_eq!(s, "n=120");
}

#[test]
fn strings_are_built_from_their_parts() {
    assert_eq!(with_char("ab", 'c'), "abc");
    assert_eq!(joined("ab", "cd"), "abcd");
    assert_eq!(chars_of("aé*"), vec!['a', 'é', '*']);
    assert_eq!(string_of(&vec!['x', 'é']), "xé");
    assert_eq!(string_of(&chars_of("")), "");
}

#[test]
fn character_classes() {
    for c in [' ', '\t', '\n', '\r'] {
        assert!(is_space(c));
    }
    assert!(!is_space('\u{b}'));
    assert!(!is_space('\u{a0}'));
    for c in '0'..='9' {
        assert!(is_digit(c) && is_word_part(c) && !is_word_start(c));
        assert_eq!(to_digit(c), c.to_digit(10).unwrap() as u64);
    }
    assert!(!is_digit('/') && !is_digit(':') && !is_digit('٣'));
    for c in 'a'..='z' {
        assert!(is_lower(c) && is_letter(c) && is_word_start(c) && is_word_part(c));
        assert_eq!(to_upper(c), c.to_ascii_uppercase());
    }
    for c in 'A'..='Z' {
        assert!(!is_lower(c) && is_letter(c) && is_word_start(c) && is_word_part(c));
        assert_eq!(to_upper(c), c);
    }
    assert!(is_word_start('_') && is_word_part('_'));
    for c in ['@', '[', '`', '{', 'é', 'ß', '-'] {
        assert!(!is_letter(c) && !is_word_start(c) && !is_word_part(c));
        assert_eq!(to_upper(c), c);
    }
    assert!(is_quote('\'') && is_quote('"') && !is_quote('`'));
}

#[test]
fn tokens_come_one_by_one() {
    let mut tokenizer = Tokenizer::new("a >= 1");
    assert_eq!(tokenizer.next().unwrap().unwrap(), Token::Identifier("A".to_string()));
    assert_eq!(tokenizer.next().unwrap().unwrap(), Token::GreaterThanOrEqual);
    assert_eq!(tokenizer.next().unwrap().unwrap(), Token::Number(1));
    assert_eq!(tokenizer.next().unwrap().unwrap(), Token::Eof);
    assert!(tokenizer.next().is_none());
    assert!(tokenizer.next().is_none());
}

#[test]
fn one_by_one_agrees_with_all_at_once() {
    for input in ["SELECT * FROM t WHERE a != 'x';", "", "  ", "create table t (a int);"] {
        let all = Tokenizer::new(input).tokenize().unwrap();
        let mut tokenizer = Tokenizer::new(input);
        let mut pulled = Vec::new();
        while let Some(item) = tokenizer.next() {
            pulled.push(item.unwrap());
        }
        assert_eq!(pulled, all);
        assert_eq!(tokenizer.tokenize().unwrap(), all);
        assert!(tokenizer.next().is_none());
    }
}

#[test]
fn lexical_error_comes_once() {
    let mut tokenizer = Tokenizer::new("a b @ c");
    match tokenizer.next() {
        Some(Err(Error::LexerError(message))) => assert_eq!(message, "Invalid character: @"),
        other => panic!("unexpected: {:?}", other),
    }
    assert!(tokenizer.next().is_none());
    assert!(tokenizer.next().is_none());
    assert!(matches!(tokenizer.tokenize(), Err(Error::LexerError(_))));
}

#[test]
fn tokenizing_depends_on_the_text_alone() {
    let mut tokenizer = Tokenizer::new("SELECT * FROM t");
    let first = tokenizer.tokenize().unwrap();
    let second = tokenizer.tokenize().unwrap();
    assert_eq!(first, second);
    assert_eq!(first.len(), 5);
    assert_eq!(tokenizer.next().unwrap().unwrap(), Token::Keyword(Keyword::Select));
    assert_eq!(tokenizer.tokenize().unwrap(), first);
    assert_eq!(tokenizer.next().unwrap().unwrap(), Token::Wildcard);
}

#[test]
fn empty_text_is_eof_alone() {
    assert_eq!(Tokenizer::new("").tokenize().unwrap(), vec![Token::Eof]);
    assert_eq!(Tokenizer::new(" \t\r\n").tokenize().unwrap(), vec![Token::Eof]);
}

#[test]
fn tokens_need_no_space_between_them() {
    assert_eq!(
        Tokenizer::new("a<=b>=c!=d=e<f>g(1)2x").tokenize().unwrap(),
        vec![
            Token::Identifier("A".to_string()),
            Token::LessThanOrEqual,
            Token::Identifier("B".to_string()),
            Token::GreaterThanOrEqual,
            Token::Identifier("C".to_string()),
            Token::NotEqual,
            Token::Identifier("D".to_string()),
            Token::Equal,
            Token::Identifier("E".to_string()),
            Token::LessThan,
            Token::Identifier("F".to_string()),
            Token::GreaterThan,
            Token::Identifier("G".to_string()),
            Token::LeftParentheses,
            Token::Number(1),
            Token::RightParentheses,
            Token::Number(2),
            Token::Identifier("X".to_string()),
            Token::Eof,
        ]
    );
    assert_eq!(
        Tokenizer::new("-1+2").tokenize().unwrap(),
        vec![Token::Minus, Token::Number(1), Token::Plus, Token::Number(2), Token::Eof]
    );
}
