use sql_parser::build_statement;
use sql_parser::error::Error;
use sql_parser::parser::Parser;
use sql_parser::statement::{
    BinaryOperator, Constraint, DBType, Expression, Statement, TableColumn, UnaryOperator,
};
use sql_parser::token::{Keyword, Token};
use sql_parser::tokenizer::Tokenizer;

fn tokens_of(input: &str) -> Vec<Token> {
    Tokenizer::new(input).tokenize().unwrap()
}

fn statement(input: &str) -> Result<Statement, Error> {
    Parser::new(tokens_of(input)).parse()
}

fn number(n: u64) -> Expression {
    Expression::Number(n)
}

fn identifier(name: &str) -> Expression {
    Expression::Identifier(name.to_string())
}

fn binary(left: Expression, operator: BinaryOperator, right: Expression) -> Expression {
    Expression::BinaryOperation {
        left_operand: Box::new(left),
        operator,
        right_operand: Box::new(right),
    }
}

fn unary(operator: UnaryOperator, operand: Expression) -> Expression {
    Expression::UnaryOperation { operand: Box::new(operand), operator }
}

fn columns_of(input: &str) -> Vec<Expression> {
    match statement(input).unwrap() {
        Statement::Select { columns, .. } => columns,
        other => panic!("not a SELECT: {:?}", other),
    }
}

#[test]
fn case_does_not_matter() {
    assert_eq!(tokens_of("select id from t;"), tokens_of("SELECT ID FROM T;"));
    assert_eq!(
        tokens_of("select id from t;"),
        vec![
            Token::Keyword(Keyword::Select),
            Token::Identifier("ID".to_string()),
            Token::Keyword(Keyword::From),
            Token::Identifier("T".to_string()),
            Token::Semicolon,
            Token::Eof,
        ]
    );
    assert_eq!(statement("select id from t;").unwrap(), statement("SELECT ID FROM T;").unwrap());
    assert_eq!(
        statement("select id from t;").unwrap(),
        Statement::Select {
            columns: vec![identifier("ID")],
            from: "T".to_string(),
            where_clause: None,
            orderby: vec![],
        }
    );
}

#[test]
fn case_matters_inside_string_literals() {
    assert_eq!(
        tokens_of("select 'It''s' from t where n = \"a b\";"),
        tokens_of("SELECT 'It''s' FROM T WHERE N = \"a b\";")
    );
    assert_ne!(tokens_of("select 'a';"), tokens_of("select 'A';"));
    assert_eq!(tokens_of("'MiXed'")[0], Token::String("MiXed".to_string()));
}

#[test]
fn star_after_select_is_a_wildcard() {
    assert_eq!(columns_of("SELECT * FROM t;"), vec![identifier("*")]);
    assert_eq!(tokens_of("SELECT * FROM t;")[1], Token::Wildcard);
}

#[test]
fn star_between_operands_multiplies() {
    assert_eq!(
        columns_of("SELECT a * b FROM t;"),
        vec![binary(identifier("A"), BinaryOperator::Multiply, identifier("B"))]
    );
    assert_eq!(tokens_of("SELECT a * b FROM t;")[2], Token::Star);
}

#[test]
fn star_after_a_comma_in_the_columns_is_a_wildcard() {
    let tokens = tokens_of("SELECT a, * FROM t WHERE b = 2 * 3, *");
    assert_eq!(tokens[3], Token::Wildcard);
    assert_eq!(tokens[10], Token::Star);
    assert_eq!(tokens[12], Token::Comma);
    assert_eq!(tokens[13], Token::Star);
}

#[test]
fn star_without_select_multiplies() {
    assert_eq!(tokens_of("*")[0], Token::Star);
    assert_eq!(tokens_of(", *")[1], Token::Star);
    assert_eq!(tokens_of("SELECT (*")[2], Token::Star);
}

#[test]
fn wildcard_must_stand_before_from() {
    match statement("SELECT *, a FROM t;") {
        Err(Error::UnexpectedToken { expected, found }) => {
            assert_eq!(expected, "FROM");
            assert_eq!(found, "Comma");
        }
        other => panic!("unexpected: {:?}", other),
    }
}

#[test]
fn number_beyond_u64_is_a_lexer_error() {
    match Tokenizer::new("SELECT 18446744073709551616 FROM t;").tokenize() {
        Err(Error::LexerError(message)) => assert_eq!(message, "Number too large"),
        other => panic!("unexpected: {:?}", other),
    }
    match Tokenizer::new("99999999999999999999999999999999").tokenize() {
        Err(Error::LexerError(message)) => assert_eq!(message, "Number too large"),
        other => panic!("unexpected: {:?}", other),
    }
}

#[test]
fn largest_number_is_accepted() {
    assert_eq!(tokens_of("18446744073709551615")[0], Token::Number(u64::MAX));
    assert_eq!(tokens_of("00018446744073709551615")[0], Token::Number(u64::MAX));
    assert_eq!(tokens_of("007")[0], Token::Number(7));
}

#[test]
fn multiplication_binds_tighter_than_addition() {
    assert_eq!(
        columns_of("SELECT 1+2*3 FROM t;"),
        vec![binary(
            number(1),
            BinaryOperator::Plus,
            binary(number(2), BinaryOperator::Multiply, number(3))
        )]
    );
    assert_eq!(
        columns_of("SELECT 1*2+3 FROM t;"),
        vec![binary(
            binary(number(1), BinaryOperator::Multiply, number(2)),
            BinaryOperator::Plus,
            number(3)
        )]
    );
}

#[test]
fn operators_of_one_precedence_group_to_the_left() {
    assert_eq!(
        columns_of("SELECT 1-2-3 FROM t;"),
        vec![binary(
            binary(number(1), BinaryOperator::Minus, number(2)),
            BinaryOperator::Minus,
            number(3)
        )]
    );
    assert_eq!(
        columns_of("SELECT 8/4*2 FROM t;"),
        vec![binary(
            binary(number(8), BinaryOperator::Divide, number(4)),
            BinaryOperator::Multiply,
            number(2)
        )]
    );
}

#[test]
fn every_level_of_precedence() {
    // a OR b AND c = d < e + f * g
    assert_eq!(
        columns_of("SELECT a OR b AND c = d < e + f * g FROM t;"),
        vec![binary(
            identifier("A"),
            BinaryOperator::Or,
            binary(
                identifier("B"),
                BinaryOperator::And,
                binary(
                    identifier("C"),
                    BinaryOperator::Equal,
                    binary(
                        identifier("D"),
                        BinaryOperator::LessThan,
                        binary(
                            identifier("E"),
                            BinaryOperator::Plus,
                            binary(identifier("F"), BinaryOperator::Multiply, identifier("G"))
                        )
                    )
                )
            )
        )]
    );
    assert_eq!(
        columns_of("SELECT a != b >= c - d / e FROM t;"),
        vec![binary(
            identifier("A"),
            BinaryOperator::NotEqual,
            binary(
                identifier("B"),
                BinaryOperator::GreaterThanOrEqual,
                binary(
                    identifier("C"),
                    BinaryOperator::Minus,
                    binary(identifier("D"), BinaryOperator::Divide, identifier("E"))
                )
            )
        )]
    );
    assert_eq!(
        columns_of("SELECT a <= b > c FROM t;"),
        vec![binary(
            binary(identifier("A"), BinaryOperator::LessThanOrEqual, identifier("B")),
            BinaryOperator::GreaterThan,
            identifier("C")
        )]
    );
}

#[test]
fn brackets_group() {
    assert_eq!(
        columns_of("SELECT (1+2)*3 FROM t;"),
        vec![binary(
            binary(number(1), BinaryOperator::Plus, number(2)),
            BinaryOperator::Multiply,
            number(3)
        )]
    );
}

#[test]
fn unary_operator_takes_the_whole_expression() {
    assert_eq!(
        columns_of("SELECT -1+2 FROM t;"),
        vec![unary(UnaryOperator::Minus, binary(number(1), BinaryOperator::Plus, number(2)))]
    );
    assert_eq!(
        columns_of("SELECT NOT a AND b, +c * 2 FROM t;"),
        vec![
            unary(UnaryOperator::Not, binary(identifier("A"), BinaryOperator::And, identifier("B"))),
            unary(
                UnaryOperator::Plus,
                binary(identifier("C"), BinaryOperator::Multiply, number(2))
            ),
        ]
    );
    assert_eq!(
        columns_of("SELECT 2 * -3 + 4 FROM t;"),
        vec![binary(
            number(2),
            BinaryOperator::Multiply,
            unary(UnaryOperator::Minus, binary(number(3), BinaryOperator::Plus, number(4)))
        )]
    );
}

#[test]
fn literals_in_expressions() {
    assert_eq!(
        columns_of("SELECT TRUE, false, 'x y', 42 FROM t;"),
        vec![
            Expression::Bool(true),
            Expression::Bool(false),
            Expression::String("x y".to_string()),
            number(42),
        ]
    );
}

#[test]
fn select_without_from_is_missing_from() {
    assert!(matches!(statement("SELECT id;"), Err(Error::MissingFromClause)));
    assert!(matches!(statement("SELECT *;"), Err(Error::MissingFromClause)));
    assert!(matches!(statement("SELECT a + 1, b;"), Err(Error::MissingFromClause)));
    assert!(matches!(build_statement("select * ;"), Err(Error::MissingFromClause)));
    assert!(matches!(statement("SELECT a, b;"), Err(Error::MissingFromClause)));
}

#[test]
fn varchar_without_length_is_invalid() {
    match statement("CREATE TABLE t (name VARCHAR);") {
        Err(Error::InvalidVarcharLength(message)) => {
            assert_eq!(message, "Missing VARCHAR length specification")
        }
        other => panic!("unexpected: {:?}", other),
    }
    match statement("CREATE TABLE t (name VARCHAR(x));") {
        Err(Error::InvalidVarcharLength(message)) => {
            assert_eq!(message, "Expected number, found Identifier(\"X\")")
        }
        other => panic!("unexpected: {:?}", other),
    }
    match Parser::new(vec![
        Token::Keyword(Keyword::Create),
        Token::Keyword(Keyword::Table),
        Token::Identifier("T".to_string()),
        Token::LeftParentheses,
        Token::Identifier("NAME".to_string()),
        Token::Keyword(Keyword::Varchar),
        Token::LeftParentheses,
    ])
    .parse()
    {
        Err(Error::InvalidVarcharLength(message)) => assert_eq!(message, "Missing VARCHAR length"),
        other => panic!("unexpected: {:?}", other),
    }
    match statement("CREATE TABLE t (name VARCHAR(10;") {
        Err(Error::UnexpectedToken { expected, found }) => {
            assert_eq!(expected, "RightParentheses");
            assert_eq!(found, "Semicolon");
        }
        other => panic!("unexpected: {:?}", other),
    }
}

#[test]
fn table_level_foreign_key_needs_its_column() {
    match statement("CREATE TABLE o (id INT, FOREIGN KEY (uid) REFERENCES u(id));") {
        Err(Error::InvalidForeignKey(message)) => {
            assert_eq!(message, "Column UID not found in table")
        }
        other => panic!("unexpected: {:?}", other),
    }
    match statement("CREATE TABLE o (id INT, FOREIGN KEY id REFERENCES u(id));") {
        Err(Error::InvalidForeignKey(message)) => assert_eq!(
            message,
            "Unexpected token: expected LeftParentheses, found Identifier(\"ID\")"
        ),
        other => panic!("unexpected: {:?}", other),
    }
    match statement("CREATE TABLE o (FOREIGN KEY (uid) REFERENCES u(id), uid INT);") {
        Err(Error::InvalidForeignKey(message)) => {
            assert_eq!(message, "Column UID not found in table")
        }
        other => panic!("unexpected: {:?}", other),
    }
}

#[test]
fn table_level_foreign_key_goes_to_its_column() {
    assert_eq!(
        statement("CREATE TABLE o (id INT, uid INT, FOREIGN KEY (uid) REFERENCES u(id));").unwrap(),
        Statement::CreateTable {
            table_name: "O".to_string(),
            column_list: vec![
                TableColumn {
                    column_name: "ID".to_string(),
                    column_type: DBType::Int,
                    constraints: vec![],
                },
                TableColumn {
                    column_name: "UID".to_string(),
                    column_type: DBType::Int,
                    constraints: vec![Constraint::ForeignKey {
                        column: "UID".to_string(),
                        referenced_table: "U".to_string(),
                        referenced_column: "ID".to_string(),
                    }],
                },
            ],
        }
    );
}

#[test]
fn table_level_foreign_key_goes_to_the_first_column_of_that_name() {
    match statement(
        "CREATE TABLE o (a INT NOT NULL, a BOOL, FOREIGN KEY (a) REFERENCES u(id), \
         FOREIGN KEY (a) REFERENCES v(x));",
    )
    .unwrap()
    {
        Statement::CreateTable { column_list, .. } => {
            assert_eq!(column_list.len(), 2);
            assert_eq!(
                column_list[0].constraints,
                vec![
                    Constraint::NotNull,
                    Constraint::ForeignKey {
                        column: "A".to_string(),
                        referenced_table: "U".to_string(),
                        referenced_column: "ID".to_string(),
                    },
                    Constraint::ForeignKey {
                        column: "A".to_string(),
                        referenced_table: "V".to_string(),
                        referenced_column: "X".to_string(),
                    },
                ]
            );
            assert_eq!(column_list[1].constraints, vec![]);
        }
        other => panic!("unexpected: {:?}", other),
    }
}

#[test]
fn column_level_foreign_key_may_name_any_column() {
    match statement("CREATE TABLE o (id INT FOREIGN KEY (other) REFERENCES u(id));").unwrap() {
        Statement::CreateTable { column_list, .. } => {
            assert_eq!(
                column_list[0].constraints,
                vec![Constraint::ForeignKey {
                    column: "OTHER".to_string(),
                    referenced_table: "U".to_string(),
                    referenced_column: "ID".to_string(),
                }]
            );
        }
        other => panic!("unexpected: {:?}", other),
    }
}

#[test]
fn create_table_with_constraints() {
    let stmt = statement(
        "CREATE TABLE users (id INT PRIMARY KEY, email VARCHAR(255) NOT NULL, age INT CHECK(age >= 18));",
    )
    .unwrap();
    assert_eq!(
        stmt,
        Statement::CreateTable {
            table_name: "USERS".to_string(),
            column_list: vec![
                TableColumn {
                    column_name: "ID".to_string(),
                    column_type: DBType::Int,
                    constraints: vec![Constraint::PrimaryKey],
                },
                TableColumn {
                    column_name: "EMAIL".to_string(),
                    column_type: DBType::Varchar(255),
                    constraints: vec![Constraint::NotNull],
                },
                TableColumn {
                    column_name: "AGE".to_string(),
                    column_type: DBType::Int,
                    constraints: vec![Constraint::Check(binary(
                        identifier("AGE"),
                        BinaryOperator::GreaterThanOrEqual,
                        number(18)
                    ))],
                },
            ],
        }
    );
}

#[test]
fn constraints_keep_their_order_and_their_repeats() {
    match statement("CREATE TABLE t (a BOOL NOT NULL PRIMARY KEY NOT NULL CHECK (a) PRIMARY KEY);")
        .unwrap()
    {
        Statement::CreateTable { column_list, .. } => {
            assert_eq!(column_list[0].column_type, DBType::Bool);
            assert_eq!(
                column_list[0].constraints,
                vec![
                    Constraint::NotNull,
                    Constraint::PrimaryKey,
                    Constraint::NotNull,
                    Constraint::Check(identifier("A")),
                    Constraint::PrimaryKey,
                ]
            );
        }
        other => panic!("unexpected: {:?}", other),
    }
}

#[test]
fn create_table_without_columns() {
    assert_eq!(
        statement("CREATE TABLE t ();").unwrap(),
        Statement::CreateTable { table_name: "T".to_string(), column_list: vec![] }
    );
}

#[test]
fn create_unique_index() {
    assert_eq!(
        statement("CREATE UNIQUE INDEX idx ON users(email);").unwrap(),
        Statement::CreateIndex {
            is_unique: true,
            index_name: "IDX".to_string(),
            table_name: "USERS".to_string(),
            column_name: "EMAIL".to_string(),
        }
    );
}

#[test]
fn create_plain_index() {
    assert_eq!(
        statement("create index i on t (c);").unwrap(),
        Statement::CreateIndex {
            is_unique: false,
            index_name: "I".to_string(),
            table_name: "T".to_string(),
            column_name: "C".to_string(),
        }
    );
}

#[test]
fn order_by_wraps_directions() {
    match statement("SELECT id FROM t ORDER BY name ASC, age DESC;").unwrap() {
        Statement::Select { orderby, .. } => {
            assert_eq!(
                orderby,
                vec![
                    unary(UnaryOperator::Asc, identifier("NAME")),
                    unary(UnaryOperator::Desc, identifier("AGE")),
                ]
            );
        }
        other => panic!("unexpected: {:?}", other),
    }
}

#[test]
fn order_by_without_direction_is_the_bare_term() {
    match statement("SELECT id FROM t ORDER BY a + 1, b DESC, c;").unwrap() {
        Statement::Select { orderby, .. } => {
            assert_eq!(
                orderby,
                vec![
                    binary(identifier("A"), BinaryOperator::Plus, number(1)),
                    unary(UnaryOperator::Desc, identifier("B")),
                    identifier("C"),
                ]
            );
        }
        other => panic!("unexpected: {:?}", other),
    }
}

#[test]
fn select_with_every_clause() {
    assert_eq!(
        statement("SELECT a, b FROM t WHERE a > 1 ORDER BY b;").unwrap(),
        Statement::Select {
            columns: vec![identifier("A"), identifier("B")],
            from: "T".to_string(),
            where_clause: Some(binary(identifier("A"), BinaryOperator::GreaterThan, number(1))),
            orderby: vec![identifier("B")],
        }
    );
}

#[test]
fn clauses_out_of_order_are_refused() {
    assert!(statement("SELECT a FROM t ORDER BY b WHERE a > 1;").is_err());
    assert!(statement("SELECT a FROM t WHERE a > 1 WHERE b;").is_err());
}

#[test]
fn build_statement_does_both_steps() {
    assert_eq!(
        build_statement("select * from users;").unwrap(),
        Statement::Select {
            columns: vec![identifier("*")],
            from: "USERS".to_string(),
            where_clause: None,
            orderby: vec![],
        }
    );
    assert!(matches!(build_statement("SELECT id;"), Err(Error::MissingFromClause)));
}

#[test]
fn build_statement_hands_on_a_lexical_error_as_it_is() {
    match build_statement("SELECT @ FROM t;") {
        Err(Error::LexerError(message)) => assert_eq!(message, "Invalid character: @"),
        other => panic!("unexpected: {:?}", other),
    }
    match build_statement("SELECT 18446744073709551616 FROM t;") {
        Err(Error::LexerError(message)) => assert_eq!(message, "Number too large"),
        other => panic!("unexpected: {:?}", other),
    }
    match build_statement("SELECT 'a FROM t;") {
        Err(Error::LexerError(message)) => {
            assert_eq!(message, "Unterminated string literal starting with '")
        }
        other => panic!("unexpected: {:?}", other),
    }
}

#[test]
fn copies_are_equal() {
    for input in [
        "SELECT a, -b * 2 FROM t WHERE NOT (a = 'x') ORDER BY a DESC, b;",
        "CREATE TABLE t (a INT PRIMARY KEY, b VARCHAR(3) CHECK (b != ''), FOREIGN KEY (a) REFERENCES u(id));",
        "CREATE UNIQUE INDEX i ON t (a);",
        "SELECT * FROM t;",
        "CREATE TABLE t ();",
    ] {
        let stmt = statement(input).unwrap();
        assert_eq!(stmt.clone(), stmt);
    }
    let tree = binary(unary(UnaryOperator::Not, identifier("A")), BinaryOperator::Or, number(1));
    assert_eq!(tree.clone(), tree);
    let list = vec![tree, Expression::String("s".to_string()), Expression::Bool(false)];
    assert_eq!(sql_parser::statement::clone_expressions(&list), list);
}

#[test]
fn an_expression_ends_before_a_token_that_is_no_operator() {
    // `a b`: the expression is `a`, and `b` is left for the rule around it.
    match statement("SELECT a b FROM t;") {
        Err(Error::UnexpectedToken { expected, found }) => {
            assert_eq!(expected, "comma or FROM");
            assert_eq!(found, "Identifier(\"B\")");
        }
        other => panic!("unexpected: {:?}", other),
    }
    match statement("SELECT (a b) FROM t;") {
        Err(Error::UnexpectedToken { expected, found }) => {
            assert_eq!(expected, "RightParentheses");
            assert_eq!(found, "Identifier(\"B\")");
        }
        other => panic!("unexpected: {:?}", other),
    }
    match statement("SELECT a FROM t WHERE a = 1 b;") {
        Err(Error::UnexpectedToken { expected, found }) => {
            assert_eq!(expected, "Semicolon");
            assert_eq!(found, "Identifier(\"B\")");
        }
        other => panic!("unexpected: {:?}", other),
    }
    // A token that is no operator ends the predicate, so `ORDER BY` may
    // follow it, and a constraint may follow a `CHECK`.
    assert_eq!(
        statement("SELECT a FROM t WHERE a ORDER BY b;").unwrap(),
        Statement::Select {
            columns: vec![identifier("A")],
            from: "T".to_string(),
            where_clause: Some(identifier("A")),
            orderby: vec![identifier("B")],
        }
    );
    assert_eq!(
        statement("SELECT a FROM t ORDER BY a + 1 DESC;").unwrap(),
        Statement::Select {
            columns: vec![identifier("A")],
            from: "T".to_string(),
            where_clause: None,
            orderby: vec![unary(
                UnaryOperator::Desc,
                binary(identifier("A"), BinaryOperator::Plus, number(1))
            )],
        }
    );
}

#[test]
fn parser_stays_at_the_token_that_it_refused() {
    // `CREATE x`: refused at `x`, so the next call begins at `x`.
    let mut parser = Parser::new(tokens_of("CREATE x"));
    match parser.parse() {
        Err(Error::UnexpectedToken { expected, found }) => {
            assert_eq!(expected, "TABLE or INDEX");
            assert_eq!(found, "Identifier(\"X\")");
        }
        other => panic!("unexpected: {:?}", other),
    }
    for _ in 0..2 {
        match parser.parse() {
            Err(Error::UnexpectedToken { expected, found }) => {
                assert_eq!(expected, "SELECT or CREATE");
                assert_eq!(found, "Identifier(\"X\")");
            }
            other => panic!("unexpected: {:?}", other),
        }
    }
    // `SELECT a FROM t SELECT b FROM u;`: the semicolon is missing at the
    // second `SELECT`, where the next call finds a whole statement.
    let mut parser = Parser::new(tokens_of("SELECT a FROM t SELECT b FROM u;"));
    match parser.parse() {
        Err(Error::UnexpectedToken { expected, found }) => {
            assert_eq!(expected, "Semicolon");
            assert_eq!(found, "Keyword(Select)");
        }
        other => panic!("unexpected: {:?}", other),
    }
    assert_eq!(
        parser.parse().unwrap(),
        Statement::Select {
            columns: vec![identifier("B")],
            from: "U".to_string(),
            where_clause: None,
            orderby: vec![],
        }
    );
    // A token refused in prefix position is not passed either.
    let mut parser = Parser::new(tokens_of("SELECT a + SELECT c FROM v;"));
    assert!(matches!(parser.parse(), Err(Error::ParserError(_))));
    assert_eq!(
        parser.parse().unwrap(),
        Statement::Select {
            columns: vec![identifier("C")],
            from: "V".to_string(),
            where_clause: None,
            orderby: vec![],
        }
    );
}
