use vstd::prelude::*;

use crate::ast::BinaryOperator;
use crate::datatype::DataType;
use crate::scope::{ColumnRef, Scope};

verus! {

/// A constant value.
///
/// A 64-bit float is held as the text that writes it; it is parsed where
/// floating-point values are handled.
#[derive(Debug, PartialEq, Eq)]
pub enum ScalarValue {
    Null,
    Boolean(bool),
    Int64(i64),
    UInt64(u64),
    Float64(String),
    Utf8(String),
}

/// A planned scalar expression.
#[derive(Debug, PartialEq, Eq)]
pub enum LogicalExpression {
    /// A column of a scope in the chain of scopes.
    ColumnRef(ColumnRef),
    Literal(ScalarValue),
    Binary { op: BinaryOperator, left: Box<LogicalExpression>, right: Box<LogicalExpression> },
}

/// Constant arguments of a table function, in the order written.
#[derive(Debug, PartialEq, Eq)]
pub struct TableFunctionArgs {
    pub named: Vec<(String, ScalarValue)>,
    pub unnamed: Vec<ScalarValue>,
}

/// A table function bound to its arguments: its name and output columns.
#[derive(Debug, PartialEq, Eq)]
pub struct BoundTableFunction {
    pub name: String,
    pub column_names: Vec<String>,
    pub column_types: Vec<DataType>,
}

/// A relational operator.
#[derive(Debug, PartialEq, Eq)]
pub enum LogicalOperator {
    /// One row of no columns.
    Empty,
    Projection { exprs: Vec<LogicalExpression>, input: Box<LogicalOperator> },
    Filter { predicate: LogicalExpression, input: Box<LogicalOperator> },
    Scan { source: BoundTableFunction, args: TableFunctionArgs },
    /// Literal rows.
    ExpressionList { rows: Vec<Vec<LogicalExpression>> },
}

/// A planned query: its root operator and the scope of its output.
#[derive(Debug, PartialEq, Eq)]
pub struct LogicalQuery {
    /// Root of the query.
    pub root: LogicalOperator,
    /// The final scope of the query.
    pub scope: Scope,
}

} // verus!
