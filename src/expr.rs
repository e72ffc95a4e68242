use vstd::prelude::*;

use crate::ast::{self, Expr, Ident, Literal, SelectExpr};
use crate::error::{ErrorKind, RayexecError, Result};
use crate::logical::{LogicalExpression, ScalarValue};
use crate::plan::{PlanContext, Resolver};
use crate::scope::{
    ColumnRef, Resolved, Scope, ScopeColumn, TableReference, lookup, scope_items,
};

verus! {

/// Whether `s` is a non-empty run of ASCII digits.
pub open spec fn is_digits(s: Seq<char>) -> bool {
    s.len() > 0 && forall|i: int| 0 <= i < s.len() ==> '0' <= #[trigger] s[i] <= '9'
}

/// The value of a run of decimal digits.
pub open spec fn digits_value(s: Seq<char>) -> int
    decreases s.len(),
{
    if s.len() == 0 {
        0
    } else {
        digits_value(s.drop_last()) * 10 + (s.last() as int - '0' as int)
    }
}

/// The integer that `s` writes: an optional `+` or `-`, then digits.
pub open spec fn signed_decimal(s: Seq<char>) -> Option<int> {
    if s.len() > 0 && s[0] == '-' && is_digits(s.drop_first()) {
        Some(-digits_value(s.drop_first()))
    } else if s.len() > 0 && s[0] == '+' && is_digits(s.drop_first()) {
        Some(digits_value(s.drop_first()))
    } else if is_digits(s) {
        Some(digits_value(s))
    } else {
        None
    }
}

/// The integer that `s` writes without a minus sign: an optional `+`, then
/// digits.
pub open spec fn unsigned_decimal(s: Seq<char>) -> Option<int> {
    if s.len() > 0 && s[0] == '+' && is_digits(s.drop_first()) {
        Some(digits_value(s.drop_first()))
    } else if is_digits(s) {
        Some(digits_value(s))
    } else {
        None
    }
}

/// Relies on `str::parse::<i64>`: accepts an optional sign followed by
/// decimal digits, nothing else, and fails when the value is out of range.
#[verifier::external_body]
fn parse_i64(s: &str) -> (r: Option<i64>)
    ensures
        r == (match signed_decimal(s@) {
            Some(v) => if i64::MIN <= v <= i64::MAX {
                Some(v as i64)
            } else {
                None
            },
            None => None,
        }),
{
    s.parse::<i64>().ok()
}

/// Relies on `str::parse::<u64>`: accepts an optional `+` followed by
/// decimal digits, nothing else, and fails when the value is out of range.
#[verifier::external_body]
fn parse_u64(s: &str) -> (r: Option<u64>)
    ensures
        r == (match unsigned_decimal(s@) {
            Some(v) => if v <= u64::MAX {
                Some(v as u64)
            } else {
                None
            },
            None => None,
        }),
{
    s.parse::<u64>().ok()
}

/// The constant a number literal denotes: a signed 64-bit integer if it
/// fits, else an unsigned one, else a float written as `n`.
pub open spec fn number_value(n: String) -> ScalarValue {
    match signed_decimal(n@) {
        Some(v) if i64::MIN <= v <= i64::MAX => ScalarValue::Int64(v as i64),
        _ => match unsigned_decimal(n@) {
            Some(v) if v <= u64::MAX => ScalarValue::UInt64(v as u64),
            _ => ScalarValue::Float64(n),
        },
    }
}

/// The planned form of a literal that can be planned.
pub open spec fn literal_rel(l: Literal, out: LogicalExpression) -> bool {
    match l {
        Literal::Number(n) => out == LogicalExpression::Literal(number_value(n)),
        Literal::Boolean(b) => out == LogicalExpression::Literal(ScalarValue::Boolean(b)),
        Literal::Null => out == LogicalExpression::Literal(ScalarValue::Null),
        Literal::SingleQuotedString(s) => out == LogicalExpression::Literal(ScalarValue::Utf8(s)),
    }
}

/// The table reference that a dotted name of 2 to 4 parts gives its column:
/// `table.column`, `schema.table.column`, `database.schema.table.column`.
pub open spec fn qualifier(idents: Seq<Ident>) -> TableReference {
    let n = idents.len();
    TableReference {
        table: idents[n - 2].value,
        schema: if n >= 3 {
            Some(idents[n - 3].value)
        } else {
            None
        },
        database: if n >= 4 {
            Some(idents[n - 4].value)
        } else {
            None
        },
    }
}

/// Where a (possibly dotted) name resolves in a chain of scopes.
pub open spec fn ident_lookup(levels: Seq<Seq<ScopeColumn>>, idents: Seq<Ident>) -> Resolved {
    if idents.len() == 1 {
        lookup(levels, None, idents[0].value@, 0)
    } else {
        lookup(levels, Some(qualifier(idents)), idents.last().value@, 0)
    }
}

/// Whether an expression can be planned against a chain of scopes.
pub open spec fn expr_ok(levels: Seq<Seq<ScopeColumn>>, e: Expr) -> bool
    decreases e,
{
    match e {
        Expr::Ident(id) => lookup(levels, None, id.value@, 0) is Column,
        Expr::CompoundIdent(ids) => 1 <= ids@.len() <= 4 && ident_lookup(levels, ids@) is Column,
        Expr::Literal(_) => true,
        Expr::BinaryExpr { left, op, right } => expr_ok(levels, *left) && expr_ok(levels, *right),
    }
}

/// The planned form of an expression that can be planned: names become
/// column references, literals constants.
pub open spec fn expr_rel(levels: Seq<Seq<ScopeColumn>>, e: Expr, out: LogicalExpression) -> bool
    decreases e,
{
    match e {
        Expr::Ident(id) => lookup(levels, None, id.value@, 0) matches Resolved::Column(l, i)
            && out == LogicalExpression::ColumnRef(
            ColumnRef { scope_level: l as usize, item_idx: i as usize },
        ),
        Expr::CompoundIdent(ids) => ident_lookup(levels, ids@) matches Resolved::Column(l, i)
            && out == LogicalExpression::ColumnRef(
            ColumnRef { scope_level: l as usize, item_idx: i as usize },
        ),
        Expr::Literal(l) => literal_rel(l, out),
        Expr::BinaryExpr { left, op, right } => out matches LogicalExpression::Binary {
            op: o,
            left: pl,
            right: pr,
        } && o == op && expr_rel(levels, *left, *pl) && expr_rel(levels, *right, *pr),
    }
}

/// An item of a select list with wildcards expanded.
#[derive(Debug, PartialEq, Eq)]
pub enum ExpandedSelectExpr {
    /// An expression with the name of its output column.
    Expr { expr: Expr, name: String },
    /// A column of the current scope.
    Column { idx: usize, name: String },
}

impl ExpandedSelectExpr {
    pub open spec fn spec_name(&self) -> Seq<char> {
        match self {
            ExpandedSelectExpr::Expr { name, .. } => name@,
            ExpandedSelectExpr::Column { name, .. } => name@,
        }
    }

    pub fn column_name(&self) -> (r: &str)
        ensures
            r@ == self.spec_name(),
    {
        match self {
            ExpandedSelectExpr::Expr { name, .. } => name.as_str(),
            ExpandedSelectExpr::Column { name, .. } => name.as_str(),
        }
    }
}

/// What expressions are planned against: a plan context and the current
/// scope.
pub struct ExpressionContext<'a, R: Resolver> {
    /// Plan context containing this expression.
    pub plan_context: &'a PlanContext<'a, R>,
    /// Scope for this expression.
    pub scope: &'a Scope,
}

/// The name that an unaliased select expression gets.
pub open spec fn unnamed_column() -> Seq<char> {
    "?column?"@
}

impl<'a, R: Resolver> ExpressionContext<'a, R> {
    pub fn new(plan_context: &'a PlanContext<'a, R>, scope: &'a Scope) -> (r: Self)
        ensures
            r.plan_context == plan_context,
            r.scope == scope,
    {
        ExpressionContext { plan_context, scope }
    }

    /// The chain of scopes names are resolved in: the current scope, then
    /// the outer scopes in order.
    pub open spec fn levels(&self) -> Seq<Seq<ScopeColumn>> {
        seq![self.scope.items@] + scope_items(self.plan_context.outer_scopes@)
    }

    /// Expands one item of a select list: an expression stands for itself,
    /// named by its alias or `?column?`; `*` stands for every column of the
    /// scope; `t.*` for those under table `t`.
    pub fn expand_select_expr(&self, expr: SelectExpr) -> (r: Result<Vec<ExpandedSelectExpr>>)
        ensures
            r is Ok <==> !(expr matches SelectExpr::QualifiedWildcard(parts) && parts@.len() == 0),
            r matches Ok(v) ==> match expr {
                SelectExpr::Expr(e) => v@.len() == 1 && (v@[0] matches ExpandedSelectExpr::Expr {
                    expr: x,
                    name: nm,
                } && x == e && nm@ == unnamed_column()),
                SelectExpr::AliasedExpr(e, alias) => v@.len() == 1
                    && v@[0] == (ExpandedSelectExpr::Expr { expr: e, name: alias.value }),
                SelectExpr::Wildcard => v@.len() == self.scope.items@.len() && forall|i: int|
                    0 <= i < v@.len() ==> #[trigger] v@[i] == (ExpandedSelectExpr::Column {
                        idx: i as usize,
                        name: self.scope.items@[i].column,
                    }),
                SelectExpr::QualifiedWildcard(parts) => {
                    let qi = qual_indices(
                        self.scope.items@,
                        parts@.last().value@,
                        self.scope.items@.len(),
                    );
                    &&& v@.len() == qi.len()
                    &&& forall|i: int|
                        0 <= i < v@.len() ==> #[trigger] v@[i] == (ExpandedSelectExpr::Column {
                            idx: qi[i] as usize,
                            name: self.scope.items@[qi[i] as int].column,
                        })
                },
            },
    {
        match expr {
            SelectExpr::Expr(e) => {
                let mut v: Vec<ExpandedSelectExpr> = Vec::new();
                v.push(ExpandedSelectExpr::Expr { expr: e, name: String::from_str("?column?") });
                Ok(v)
            },
            SelectExpr::AliasedExpr(e, alias) => {
                let mut v: Vec<ExpandedSelectExpr> = Vec::new();
                v.push(ExpandedSelectExpr::Expr { expr: e, name: alias.value });
                Ok(v)
            },
            SelectExpr::Wildcard => {
                let mut v: Vec<ExpandedSelectExpr> = Vec::new();
                let mut i: usize = 0;
                while i < self.scope.items.len()
                    invariant
                        i <= self.scope.items@.len(),
                        v@.len() == i,
                        forall|k: int|
                            0 <= k < i ==> #[trigger] v@[k] == (ExpandedSelectExpr::Column {
                                idx: k as usize,
                                name: self.scope.items@[k].column,
                            }),
                    decreases self.scope.items@.len() - i,
                {
                    v.push(
                        ExpandedSelectExpr::Column { idx: i, name: self.scope.items[i].column.clone() },
                    );
                    i = i + 1;
                }
                Ok(v)
            },
            SelectExpr::QualifiedWildcard(parts) => {
                if parts.len() == 0 {
                    return Err(
                        RayexecError::with_kind(
                            ErrorKind::InvalidArgument,
                            "Qualified wildcard without a qualifier",
                        ),
                    );
                }
                let base = &parts[parts.len() - 1].value;
                let mut v: Vec<ExpandedSelectExpr> = Vec::new();
                let mut i: usize = 0;
                while i < self.scope.items.len()
                    invariant
                        i <= self.scope.items@.len(),
                        parts@.len() > 0,
                        *base == parts@.last().value,
                        v@.len() == qual_indices(self.scope.items@, base@, i as nat).len(),
                        forall|k: int|
                            0 <= k < v@.len() ==> #[trigger] v@[k] == (ExpandedSelectExpr::Column {
                                idx: qual_indices(self.scope.items@, base@, i as nat)[k] as usize,
                                name: self.scope.items@[qual_indices(
                                    self.scope.items@,
                                    base@,
                                    i as nat,
                                )[k] as int].column,
                            }),
                        forall|k: int|
                            0 <= k < qual_indices(self.scope.items@, base@, i as nat).len()
                                ==> #[trigger] qual_indices(self.scope.items@, base@, i as nat)[k] < i,
                    decreases self.scope.items@.len() - i,
                {
                    let item = &self.scope.items[i];
                    let hit = match &item.alias {
                        Some(a) => a.table == *base,
                        None => false,
                    };
                    proof {
                        assert(hit == under_table(self.scope.items@[i as int], base@));
                    }
                    if hit {
                        v.push(ExpandedSelectExpr::Column { idx: i, name: item.column.clone() });
                    }
                    i = i + 1;
                }
                Ok(v)
            },
        }
    }

    /// Plans an expression against the current scope and the outer scopes.
    pub fn plan_expression(&self, expr: Expr) -> (r: Result<LogicalExpression>)
        ensures
            r is Ok <==> expr_ok(self.levels(), expr),
            r matches Ok(out) ==> expr_rel(self.levels(), expr, out),
        decreases expr,
    {
        match expr {
            Expr::Ident(ident) => self.plan_ident(ident),
            Expr::CompoundIdent(idents) => self.plan_idents(idents),
            Expr::Literal(literal) => self.plan_literal(literal),
            Expr::BinaryExpr { left, op, right } => {
                let l = self.plan_expression(*left)?;
                let r = self.plan_expression(*right)?;
                Ok(LogicalExpression::Binary { op, left: Box::new(l), right: Box::new(r) })
            },
        }
    }

    /// Plans a literal: a number becomes a signed 64-bit integer if it fits,
    /// else an unsigned one, else a float kept as its text.
    pub fn plan_literal(&self, literal: Literal) -> (r: Result<LogicalExpression>)
        ensures
            r matches Ok(out) && literal_rel(literal, out),
    {
        match literal {
            Literal::Number(n) => {
                if let Some(v) = parse_i64(n.as_str()) {
                    Ok(LogicalExpression::Literal(ScalarValue::Int64(v)))
                } else if let Some(v) = parse_u64(n.as_str()) {
                    Ok(LogicalExpression::Literal(ScalarValue::UInt64(v)))
                } else {
                    Ok(LogicalExpression::Literal(ScalarValue::Float64(n)))
                }
            },
            Literal::Boolean(b) => Ok(LogicalExpression::Literal(ScalarValue::Boolean(b))),
            Literal::Null => Ok(LogicalExpression::Literal(ScalarValue::Null)),
            Literal::SingleQuotedString(s) => Ok(LogicalExpression::Literal(ScalarValue::Utf8(s))),
        }
    }

    /// Plans a single name: a column of the current scope or of an outer
    /// one; fails with `Lookup` if it names none or several.
    pub fn plan_ident(&self, ident: Ident) -> (r: Result<LogicalExpression>)
        ensures
            r is Ok <==> lookup(self.levels(), None, ident.value@, 0) is Column,
            r matches Ok(out) ==> expr_rel(self.levels(), Expr::Ident(ident), out),
            r matches Err(e) ==> e.kind == ErrorKind::Lookup,
    {
        match self.scope.resolve_column(self.plan_context.outer_scopes.as_slice(), None, &ident.value)? {
            Some(col) => Ok(LogicalExpression::ColumnRef(col)),
            None => Err(RayexecError::with_kind(ErrorKind::Lookup, "Missing column for reference")),
        }
    }

    /// Plans a dotted name: one part is a plain name; two to four parts are
    /// a column qualified by `[database.][schema.]table`. Fails with
    /// `InvalidArgument` for none or more than four parts.
    pub fn plan_idents(&self, idents: Vec<Ident>) -> (r: Result<LogicalExpression>)
        ensures
            r is Ok <==> expr_ok(self.levels(), Expr::CompoundIdent(idents)),
            r matches Ok(out) ==> expr_rel(self.levels(), Expr::CompoundIdent(idents), out),
            r matches Err(e) ==> e.kind == if 1 <= idents@.len() <= 4 {
                ErrorKind::Lookup
            } else {
                ErrorKind::InvalidArgument
            },
    {
        let n = idents.len();
        if n == 0 {
            return Err(RayexecError::with_kind(ErrorKind::InvalidArgument, "Empty identifier"));
        }
        if n > 4 {
            return Err(
                RayexecError::with_kind(ErrorKind::InvalidArgument, "Too many identifier parts"),
            );
        }
        let ghost ids = idents@;
        if n == 1 {
            let mut idents = idents;
            let ident = idents.remove(0);
            proof {
                assert(ident == ids[0]);
            }
            return self.plan_ident(ident);
        }
        let table_ref = TableReference {
            table: idents[n - 2].value.clone(),
            schema: if n >= 3 {
                Some(idents[n - 3].value.clone())
            } else {
                None
            },
            database: if n >= 4 {
                Some(idents[n - 4].value.clone())
            } else {
                None
            },
        };
        proof {
            assert(table_ref == qualifier(ids));
        }
        match self.scope.resolve_column(
            self.plan_context.outer_scopes.as_slice(),
            Some(&table_ref),
            &idents[n - 1].value,
        )? {
            Some(col) => Ok(LogicalExpression::ColumnRef(col)),
            None => Err(RayexecError::with_kind(ErrorKind::Lookup, "Missing column for reference")),
        }
    }
}

/// The indices, in order, of the first `n` scope columns under table `t`.
pub open spec fn qual_indices(items: Seq<ScopeColumn>, t: Seq<char>, n: nat) -> Seq<nat>
    decreases n,
{
    if n == 0 {
        Seq::empty()
    } else if under_table(items[n - 1], t) {
        qual_indices(items, t, (n - 1) as nat).push((n - 1) as nat)
    } else {
        qual_indices(items, t, (n - 1) as nat)
    }
}

/// Whether a scope column belongs to a table of the given name.
pub open spec fn under_table(item: ScopeColumn, table: Seq<char>) -> bool {
    item.alias matches Some(a) && a.table@ == table
}

} // verus!
