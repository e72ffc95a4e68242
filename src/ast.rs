use vstd::prelude::*;

verus! {

/// A name as written in a query.
#[derive(Debug, Clone, PartialEq, Eq)]
pub struct Ident {
    pub value: String,
}

/// A literal value as written in a query.
#[derive(Debug, Clone, PartialEq, Eq)]
pub enum Literal {
    /// A number, as its text.
    Number(String),
    Boolean(bool),
    Null,
    SingleQuotedString(String),
}

#[derive(Debug, Clone, Copy, PartialEq, Eq, Structural)]
pub enum BinaryOperator {
    Plus,
    Minus,
    Multiply,
    Divide,
    Eq,
    NotEq,
    Lt,
    LtEq,
    Gt,
    GtEq,
    And,
    Or,
}

/// A scalar expression.
#[derive(Debug, PartialEq, Eq)]
pub enum Expr {
    Ident(Ident),
    /// A dotted name, such as `table.column`.
    CompoundIdent(Vec<Ident>),
    Literal(Literal),
    BinaryExpr { left: Box<Expr>, op: BinaryOperator, right: Box<Expr> },
}

/// One item of a select list.
#[derive(Debug, PartialEq, Eq)]
pub enum SelectExpr {
    Expr(Expr),
    AliasedExpr(Expr, Ident),
    /// `*`
    Wildcard,
    /// `name.*`
    QualifiedWildcard(Vec<Ident>),
}

/// An alias for a FROM item, with optional column aliases.
#[derive(Debug, PartialEq, Eq)]
pub struct FromAlias {
    pub alias: Ident,
    pub columns: Option<Vec<Ident>>,
}

/// An argument to a table function.
#[derive(Debug, PartialEq, Eq)]
pub enum FunctionArg {
    Named { name: Ident, arg: Expr },
    Unnamed { arg: Expr },
}

/// What a FROM item reads.
#[derive(Debug, PartialEq, Eq)]
pub enum FromNodeBody {
    BaseTable(Vec<Ident>),
    Subquery(Box<QueryNode>),
    TableFunction { reference: Vec<Ident>, args: Vec<FunctionArg> },
    Join,
}

#[derive(Debug, PartialEq, Eq)]
pub struct FromNode {
    pub alias: Option<FromAlias>,
    pub body: FromNodeBody,
}

#[derive(Debug, PartialEq, Eq)]
pub struct SelectNode {
    pub projections: Vec<SelectExpr>,
    pub from: Option<FromNode>,
    pub where_expr: Option<Expr>,
}

/// `VALUES (...), (...)`
#[derive(Debug, PartialEq, Eq)]
pub struct Values {
    pub rows: Vec<Vec<Expr>>,
}

#[derive(Debug, PartialEq, Eq)]
pub enum QueryNodeBody {
    Select(Box<SelectNode>),
    Values(Values),
    /// A set operation (UNION and the like).
    SetOperation,
}

#[derive(Debug, PartialEq, Eq)]
pub struct QueryNode {
    pub body: QueryNodeBody,
}

/// A parsed statement.
#[derive(Debug, PartialEq, Eq)]
pub enum Statement {
    Query(QueryNode),
    /// CREATE SCHEMA ...
    CreateSchema { reference: Vec<Ident>, if_not_exists: bool },
    /// SET <variable> TO <value>
    SetVariable { reference: Vec<Ident>, value: Expr },
}

} // verus!
