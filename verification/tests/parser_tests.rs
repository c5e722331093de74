use sql_parser::error::Error;
use sql_parser::parser::Parser;
use sql_parser::statement::{Constraint, DBType, Expression, Statement};
use sql_parser::tokenizer::Tokenizer;

fn parse_sql(input: &str) -> Result<Statement, Error> {
    let mut tokenizer = Tokenizer::new(input);
    let tokens = tokenizer.tokenize().unwrap();
    let mut parser = Parser::new(tokens);
    parser.parse()
}

#[test]
fn test_parse_select_basic() {
    let stmt = parse_sql("SELECT id, name FROM users;").unwrap();
    match stmt {
        Statement::Select { columns, from, where_clause, orderby } => {
            assert_eq!(columns.len(), 2);
            assert_eq!(from, "USERS");
            assert!(where_clause.is_none());
            assert!(orderby.is_empty());
        }
        _ => panic!("Expected Select statement"),
    }
}

#[test]
fn test_parse_select_where() {
    let stmt = parse_sql("SELECT id FROM users WHERE age >= 18;").unwrap();
    match stmt {
        Statement::Select { columns: _, from: _, where_clause, orderby: _ } => {
            assert!(where_clause.is_some());
        }
        _ => panic!("Expected Select statement"),
    }
}

#[test]
fn test_parse_select_order_by() {
    let stmt = parse_sql("SELECT id FROM users ORDER BY name ASC, age DESC;").unwrap();
    match stmt {
        Statement::Select { columns: _, from: _, where_clause: _, orderby } => {
            assert_eq!(orderby.len(), 2);
        }
        _ => panic!("Expected Select statement"),
    }
}

#[test]
fn test_parse_select_star() {
    let stmt = parse_sql("SELECT * FROM users;").unwrap();
    match stmt {
        Statement::Select { columns, from: _, where_clause: _, orderby: _ } => {
            assert_eq!(columns.len(), 1);
            assert!(matches!(&columns[0], Expression::Identifier(s) if s == "*"));
        }
        _ => panic!("Expected Select statement"),
    }
}

#[test]
fn test_parse_create_table_basic() {
    let stmt = parse_sql("CREATE TABLE users (id INT, name VARCHAR(255));").unwrap();
    match stmt {
        Statement::CreateTable { table_name, column_list } => {
            assert_eq!(table_name, "USERS");
            assert_eq!(column_list.len(), 2);
            assert!(matches!(column_list[0].column_type, DBType::Int));
            assert!(matches!(column_list[1].column_type, DBType::Varchar(255)));
        }
        _ => panic!("Expected CreateTable statement"),
    }
}

#[test]
fn test_parse_create_table_constraints() {
    let stmt = parse_sql("CREATE TABLE users (
            id INT PRIMARY KEY,
            email VARCHAR(255) NOT NULL,
            age INT CHECK(age >= 18)
        );").unwrap();
    match stmt {
        Statement::CreateTable { table_name: _, column_list } => {
            assert_eq!(column_list.len(), 3);
            assert!(column_list[0].constraints.contains(&Constraint::PrimaryKey));
            assert!(column_list[1].constraints.contains(&Constraint::NotNull));
            assert!(matches!(&column_list[2].constraints[0], Constraint::Check(_)));
        }
        _ => panic!("Expected CreateTable statement"),
    }
}

#[test]
fn test_parse_create_table_foreign_key() {
    let stmt = parse_sql("CREATE TABLE orders (
            id INT PRIMARY KEY,
            user_id INT,
            FOREIGN KEY (user_id) REFERENCES users(id)
        );").unwrap();
    match stmt {
        Statement::CreateTable { table_name: _, column_list } => {
            assert!(matches!(&column_list[1].constraints[0],
                    Constraint::ForeignKey { column, referenced_table, referenced_column }
                    if column == "USER_ID" && referenced_table == "USERS" && referenced_column == "ID"
                ));
        }
        _ => panic!("Expected CreateTable statement"),
    }
}

#[test]
fn test_parse_expressions() {
    let stmt = parse_sql("SELECT id * 2 + 3, (age - 18) / 2 FROM users;").unwrap();
    match stmt {
        Statement::Select { columns, from: _, where_clause: _, orderby: _ } => {
            assert_eq!(columns.len(), 2);
            assert!(matches!(&columns[0], Expression::BinaryOperation { .. }));
            assert!(matches!(&columns[1], Expression::BinaryOperation { .. }));
        }
        _ => panic!("Expected Select statement"),
    }
}

#[test]
fn test_error_no_from() {
    assert!(matches!(
        parse_sql("SELECT id;"),
        Err(Error::MissingFromClause)
    ));
}

#[test]
fn test_error_invalid_varchar() {
    assert!(matches!(
        parse_sql("CREATE TABLE users (name VARCHAR);"),
        Err(Error::InvalidVarcharLength(_))
    ));
}

#[test]
fn test_error_invalid_check_constraint() {
    assert!(matches!(
        parse_sql("CREATE TABLE users (age INT CHECK);"),
        Err(Error::ParserError(_))
    ));
}

#[test]
fn test_parse_complex_select() {
    let stmt = parse_sql("SELECT id * 2 + 1, name FROM users WHERE age >= 18 AND (salary > 50000 OR department = 'IT') ORDER BY name DESC;").unwrap();
    match stmt {
        Statement::Select { columns, from, where_clause, orderby } => {
            assert_eq!(columns.len(), 2);
            assert_eq!(from, "USERS");
            assert!(where_clause.is_some());
            assert_eq!(orderby.len(), 1);
            assert!(matches!(&orderby[0], Expression::UnaryOperation { .. }));
        }
        _ => panic!("Expected Select statement"),
    }
}
