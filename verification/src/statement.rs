//! Statements: what a parsed text is.

use vstd::prelude::*;

verus! {

/// An operator with one operand. `Asc` and `Desc` are the directions of an
/// `ORDER BY` term, held as operators on the term.
#[derive(Clone, Copy, Debug, PartialEq, Eq, Structural)]
pub enum UnaryOperator {
    Minus,
    Plus,
    Not,
    Asc,
    Desc,
}

/// An operator with two operands.
#[derive(Clone, Copy, Debug, PartialEq, Eq, Structural)]
pub enum BinaryOperator {
    Plus,
    Minus,
    Multiply,
    Divide,
    Equal,
    NotEqual,
    GreaterThan,
    GreaterThanOrEqual,
    LessThan,
    LessThanOrEqual,
    And,
    Or,
}

/// The type of a column.
#[derive(Clone, Copy, Debug, PartialEq, Eq, Structural)]
pub enum DBType {
    Int,
    Bool,
    /// Text of at most so many characters.
    Varchar(usize),
}

/// An expression: a tree that owns its operands.
#[derive(Debug, PartialEq)]
#[allow(inconsistent_fields)]
pub enum Expression {
    Number(u64),
    String(String),
    Bool(bool),
    Identifier(String),
    UnaryOperation { operand: Box<Expression>, operator: UnaryOperator },
    BinaryOperation {
        left_operand: Box<Expression>,
        operator: BinaryOperator,
        right_operand: Box<Expression>,
    },
}

/// The model of an expression.
#[allow(inconsistent_fields)]
pub enum ExpressionView {
    Number(u64),
    String(Seq<char>),
    Bool(bool),
    Identifier(Seq<char>),
    UnaryOperation { operand: Box<ExpressionView>, operator: UnaryOperator },
    BinaryOperation {
        left_operand: Box<ExpressionView>,
        operator: BinaryOperator,
        right_operand: Box<ExpressionView>,
    },
}

impl Expression {
    /// The model of the expression, operand by operand.
    pub open spec fn model(self) -> ExpressionView
        decreases self,
    {
        match self {
            Expression::Number(n) => ExpressionView::Number(n),
            Expression::String(s) => ExpressionView::String(s@),
            Expression::Bool(b) => ExpressionView::Bool(b),
            Expression::Identifier(s) => ExpressionView::Identifier(s@),
            Expression::UnaryOperation { operand, operator } => ExpressionView::UnaryOperation {
                operand: Box::new((*operand).model()),
                operator,
            },
            Expression::BinaryOperation {
                left_operand,
                operator,
                right_operand,
            } => ExpressionView::BinaryOperation {
                left_operand: Box::new((*left_operand).model()),
                operator,
                right_operand: Box::new((*right_operand).model()),
            },
        }
    }
}

impl View for Expression {
    type V = ExpressionView;

    open spec fn view(&self) -> ExpressionView {
        self.model()
    }
}

impl Expression {
    /// A copy of the expression, operand by operand.
    fn duplicate(&self) -> (r: Expression)
        ensures
            r@ == self@,
        decreases self,
    {
        match self {
            Expression::Number(n) => Expression::Number(*n),
            Expression::String(s) => Expression::String(s.clone()),
            Expression::Bool(b) => Expression::Bool(*b),
            Expression::Identifier(s) => Expression::Identifier(s.clone()),
            Expression::UnaryOperation { operand, operator } => Expression::UnaryOperation {
                operand: Box::new(operand.duplicate()),
                operator: *operator,
            },
            Expression::BinaryOperation {
                left_operand,
                operator,
                right_operand,
            } => Expression::BinaryOperation {
                left_operand: Box::new(left_operand.duplicate()),
                operator: *operator,
                right_operand: Box::new(right_operand.duplicate()),
            },
        }
    }
}

impl Clone for Expression {
    fn clone(&self) -> (r: Expression)
        ensures
            r@ == self@,
    {
        self.duplicate()
    }
}

/// A copy of each expression, in the same order.
pub fn clone_expressions(expressions: &Vec<Expression>) -> (r: Vec<Expression>)
    ensures
        expression_views(r@) == expression_views(expressions@),
{
    let mut r: Vec<Expression> = Vec::new();
    let mut i: usize = 0;
    while i < expressions.len()
        invariant
            i <= expressions.len(),
            r.len() == i,
            forall|j: int| 0 <= j < i ==> r@[j]@ == expressions@[j]@,
        decreases expressions.len() - i,
    {
        r.push(expressions[i].clone());
        i += 1;
    }
    assert(expression_views(r@) =~= expression_views(expressions@));
    r
}

/// The models of a sequence of expressions.
pub open spec fn expression_views(expressions: Seq<Expression>) -> Seq<ExpressionView> {
    expressions.map_values(|e: Expression| e@)
}

/// The model of an expression that may be absent.
pub open spec fn optional_view(expression: Option<Expression>) -> Option<ExpressionView> {
    match expression {
        Some(e) => Some(e@),
        None => None,
    }
}

/// A constraint on a column.
#[derive(Debug, PartialEq)]
pub enum Constraint {
    PrimaryKey,
    NotNull,
    ForeignKey { column: String, referenced_table: String, referenced_column: String },
    Check(Expression),
}

/// The model of a constraint.
pub enum ConstraintView {
    PrimaryKey,
    NotNull,
    ForeignKey { column: Seq<char>, referenced_table: Seq<char>, referenced_column: Seq<char> },
    Check(ExpressionView),
}

impl View for Constraint {
    type V = ConstraintView;

    open spec fn view(&self) -> ConstraintView {
        match self {
            Constraint::PrimaryKey => ConstraintView::PrimaryKey,
            Constraint::NotNull => ConstraintView::NotNull,
            Constraint::ForeignKey {
                column,
                referenced_table,
                referenced_column,
            } => ConstraintView::ForeignKey {
                column: column@,
                referenced_table: referenced_table@,
                referenced_column: referenced_column@,
            },
            Constraint::Check(e) => ConstraintView::Check(e@),
        }
    }
}

impl Clone for Constraint {
    fn clone(&self) -> (r: Constraint)
        ensures
            r@ == self@,
    {
        match self {
            Constraint::PrimaryKey => Constraint::PrimaryKey,
            Constraint::NotNull => Constraint::NotNull,
            Constraint::ForeignKey {
                column,
                referenced_table,
                referenced_column,
            } => Constraint::ForeignKey {
                column: column.clone(),
                referenced_table: referenced_table.clone(),
                referenced_column: referenced_column.clone(),
            },
            Constraint::Check(e) => Constraint::Check(e.clone()),
        }
    }
}

/// The models of a sequence of constraints.
pub open spec fn constraint_views(constraints: Seq<Constraint>) -> Seq<ConstraintView> {
    constraints.map_values(|c: Constraint| c@)
}

/// A column of a table: its name, its type, and its constraints in the
/// order in which they were written. Nothing is removed from them: one
/// that was written twice stands twice.
#[derive(Debug, PartialEq)]
pub struct TableColumn {
    pub column_name: String,
    pub column_type: DBType,
    pub constraints: Vec<Constraint>,
}

/// The model of a column.
pub struct TableColumnView {
    pub column_name: Seq<char>,
    pub column_type: DBType,
    pub constraints: Seq<ConstraintView>,
}

impl View for TableColumn {
    type V = TableColumnView;

    open spec fn view(&self) -> TableColumnView {
        TableColumnView {
            column_name: self.column_name@,
            column_type: self.column_type,
            constraints: constraint_views(self.constraints@),
        }
    }
}

impl Clone for TableColumn {
    fn clone(&self) -> (r: TableColumn)
        ensures
            r@ == self@,
    {
        let mut constraints: Vec<Constraint> = Vec::new();
        let mut i: usize = 0;
        while i < self.constraints.len()
            invariant
                i <= self.constraints.len(),
                constraints.len() == i,
                forall|j: int| 0 <= j < i ==> constraints@[j]@ == self.constraints@[j]@,
            decreases self.constraints.len() - i,
        {
            constraints.push(self.constraints[i].clone());
            i += 1;
        }
        assert(constraint_views(constraints@) =~= constraint_views(self.constraints@));
        TableColumn {
            column_name: self.column_name.clone(),
            column_type: self.column_type,
            constraints,
        }
    }
}

/// The models of a sequence of columns.
pub open spec fn column_views(columns: Seq<TableColumn>) -> Seq<TableColumnView> {
    columns.map_values(|c: TableColumn| c@)
}

/// A statement.
#[derive(Debug, PartialEq)]
pub enum Statement {
    Select {
        columns: Vec<Expression>,
        from: String,
        where_clause: Option<Expression>,
        orderby: Vec<Expression>,
    },
    CreateTable { table_name: String, column_list: Vec<TableColumn> },
    CreateIndex { is_unique: bool, index_name: String, table_name: String, column_name: String },
}

/// The model of a statement.
pub enum StatementView {
    Select {
        columns: Seq<ExpressionView>,
        from: Seq<char>,
        where_clause: Option<ExpressionView>,
        orderby: Seq<ExpressionView>,
    },
    CreateTable { table_name: Seq<char>, column_list: Seq<TableColumnView> },
    CreateIndex {
        is_unique: bool,
        index_name: Seq<char>,
        table_name: Seq<char>,
        column_name: Seq<char>,
    },
}

impl View for Statement {
    type V = StatementView;

    open spec fn view(&self) -> StatementView {
        match self {
            Statement::Select { columns, from, where_clause, orderby } => StatementView::Select {
                columns: expression_views(columns@),
                from: from@,
                where_clause: optional_view(*where_clause),
                orderby: expression_views(orderby@),
            },
            Statement::CreateTable { table_name, column_list } => StatementView::CreateTable {
                table_name: table_name@,
                column_list: column_views(column_list@),
            },
            Statement::CreateIndex {
                is_unique,
                index_name,
                table_name,
                column_name,
            } => StatementView::CreateIndex {
                is_unique: *is_unique,
                index_name: index_name@,
                table_name: table_name@,
                column_name: column_name@,
            },
        }
    }
}

impl Clone for Statement {
    fn clone(&self) -> (r: Statement)
        ensures
            r@ == self@,
    {
        match self {
            Statement::Select { columns, from, where_clause, orderby } => Statement::Select {
                columns: clone_expressions(columns),
                from: from.clone(),
                where_clause: match where_clause {
                    Some(e) => Some(e.clone()),
                    None => None,
                },
                orderby: clone_expressions(orderby),
            },
            Statement::CreateTable { table_name, column_list } => {
                let mut columns: Vec<TableColumn> = Vec::new();
                let mut i: usize = 0;
                while i < column_list.len()
                    invariant
                        i <= column_list.len(),
                        columns.len() == i,
                        forall|j: int| 0 <= j < i ==> columns@[j]@ == column_list@[j]@,
                    decreases column_list.len() - i,
                {
                    columns.push(column_list[i].clone());
                    i += 1;
                }
                assert(column_views(columns@) =~= column_views(column_list@));
                Statement::CreateTable { table_name: table_name.clone(), column_list: columns }
            },
            Statement::CreateIndex {
                is_unique,
                index_name,
                table_name,
                column_name,
            } => Statement::CreateIndex {
                is_unique: *is_unique,
                index_name: index_name.clone(),
                table_name: table_name.clone(),
                column_name: column_name.clone(),
            },
        }
    }
}

} // verus!
