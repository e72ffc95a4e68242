use vstd::prelude::*;
use vstd::string::*;

use crate::ast::{
    self, Expr, FromAlias, FromNode, FromNodeBody, FunctionArg, Ident, Literal, QueryNode,
    QueryNodeBody, SelectExpr, SelectNode, Statement, Values,
};
use crate::error::{ErrorKind, RayexecError, Result};
use crate::expr::{
    ExpandedSelectExpr, ExpressionContext, expr_ok, expr_rel, number_value, qual_indices,
};
use crate::logical::{
    BoundTableFunction, LogicalExpression, LogicalOperator, LogicalQuery, ScalarValue,
    TableFunctionArgs,
};
use crate::scope::{ColumnRef, Scope, ScopeColumn, TableReference, scope_items};
use crate::text::{decimal, decimal_string};

verus! {

/// Resolves and binds the table functions that queries name.
pub trait Resolver {
    /// Binds the table function named by `reference` to constant arguments.
    fn bind_table_function(&self, reference: &Vec<Ident>, args: TableFunctionArgs) -> Result<
        BoundTableFunction,
    >;
}

/// The name of the `i`-th column of a VALUES list: `column1`, `column2`, ...
pub open spec fn values_column_name(i: nat) -> Seq<char> {
    "column"@ + decimal(i + 1)
}

fn values_column(i: usize) -> (r: String)
    requires
        i < usize::MAX,
    ensures
        r@ == values_column_name(i as nat),
{
    let mut s = String::from_str("column");
    let d = decimal_string(i + 1);
    s.append(d.as_str());
    s
}

/// `q` is the plan of a VALUES list: one row of planned expressions per
/// row, against no columns of its own and the outer scopes `outer`, with
/// columns named `column1`, `column2`, ... after the first row.
pub open spec fn values_rel(outer: Seq<Seq<ScopeColumn>>, values: Values, q: LogicalQuery) -> bool {
    let levels = seq![Seq::<ScopeColumn>::empty()] + outer;
    &&& q.root matches LogicalOperator::ExpressionList { rows } && rows@.len() == values.rows@.len()
        && forall|i: int|
        0 <= i < rows@.len() ==> (#[trigger] rows@[i])@.len() == values.rows@[i]@.len() && forall|
            j: int,
        | 0 <= j < rows@[i]@.len() ==> expr_rel(levels, values.rows@[i]@[j], #[trigger] rows@[i]@[j])
    &&& q.scope.items@.len() == values.rows@[0]@.len()
    &&& forall|c: int|
        0 <= c < q.scope.items@.len() ==> (#[trigger] q.scope.items@[c]).alias is None
            && q.scope.items@[c].column@ == values_column_name(c as nat)
}

/// `q` is the plan of a query against the outer scopes `outer`.
pub open spec fn query_rel(outer: Seq<Seq<ScopeColumn>>, query: QueryNode, q: LogicalQuery) -> bool {
    match query.body {
        QueryNodeBody::Select(sel) => select_query_rel(outer, *sel, q),
        QueryNodeBody::Values(v) => values_rel(outer, v, q),
        QueryNodeBody::SetOperation => false,
    }
}

/// `froot` and `items` are the root and scope a SELECT's FROM item plans to:
/// an empty row and no columns without one, else the plan of the item.
pub open spec fn from_choice(
    outer: Seq<Seq<ScopeColumn>>,
    from: Option<FromNode>,
    froot: LogicalOperator,
    items: Seq<ScopeColumn>,
) -> bool {
    match from {
        None => froot == LogicalOperator::Empty && items.len() == 0,
        Some(f) => exists|fq: LogicalQuery|
            #[trigger] from_rel(outer, f, Seq::empty(), fq) && froot == fq.root && items
                == fq.scope.items@,
    }
}

/// `q` is the plan of a SELECT against the outer scopes `outer`: a plan of
/// its FROM item, then the WHERE filter and the projection over it.
pub open spec fn select_query_rel(outer: Seq<Seq<ScopeColumn>>, sel: SelectNode, q: LogicalQuery) -> bool {
    exists|froot: LogicalOperator, items: Seq<ScopeColumn>|
        from_choice(outer, sel.from, froot, items) && #[trigger] select_rel(
            seq![items] + outer,
            items,
            sel.where_expr,
            sel.projections@,
            froot,
            q,
        )
}

/// `q` is the plan of a FROM item within the scope `cur`, with the item's
/// alias applied: for a table function, a scan of the function bound to the
/// constant arguments; for a subquery, the root of a query plan (projection
/// or literal rows) and its scope. The subquery's own plan is stated by
/// `PlanContext::plan_query`.
pub open spec fn from_rel(
    outer: Seq<Seq<ScopeColumn>>,
    from: FromNode,
    cur: Seq<ScopeColumn>,
    q: LogicalQuery,
) -> bool {
    match from.body {
        FromNodeBody::TableFunction { args, .. } => q.root matches LogicalOperator::Scan {
            source,
            args: a,
        } && a.named@ == named_args(args@) && a.unnamed@ == unnamed_args(args@) && alias_rel(
            from.alias,
            scan_items(source),
            q.scope.items@,
        ),
        FromNodeBody::Subquery(_) => (q.root is Projection || q.root is ExpressionList) && exists|
            inner: Seq<ScopeColumn>,
        | #[trigger] alias_rel(from.alias, inner, q.scope.items@),
        _ => false,
    }
}

/// Whether a query plans whatever any resolver answers: a SELECT without a
/// FROM item whose WHERE and select list plan, or a VALUES list whose
/// expressions plan against the outer scopes `outer`.
pub open spec fn simple_query_ok(outer: Seq<Seq<ScopeColumn>>, query: QueryNode) -> bool {
    let levels = seq![Seq::<ScopeColumn>::empty()] + outer;
    match query.body {
        QueryNodeBody::Select(sel) => sel.from is None && select_ok(
            levels,
            sel.where_expr,
            sel.projections@,
        ),
        QueryNodeBody::Values(v) => v.rows@.len() > 0 && v.rows@[0]@.len() < usize::MAX && forall|
            i: int,
            j: int,
        | 0 <= i < v.rows@.len() && 0 <= j < v.rows@[i]@.len() ==> expr_ok(
            levels,
            #[trigger] v.rows@[i]@[j],
        ),
        QueryNodeBody::SetOperation => false,
    }
}

/// The number of output columns of such a query.
pub open spec fn simple_query_width(query: QueryNode) -> nat {
    match query.body {
        QueryNodeBody::Select(sel) => total_width(Seq::empty(), sel.projections@),
        QueryNodeBody::Values(v) => v.rows@[0]@.len(),
        QueryNodeBody::SetOperation => 0,
    }
}

/// The expression of a table-function argument.
pub open spec fn arg_expr(a: FunctionArg) -> Expr {
    match a {
        FunctionArg::Named { arg, .. } => arg,
        FunctionArg::Unnamed { arg } => arg,
    }
}

/// Whether every argument is a literal.
pub open spec fn args_constant(args: Seq<FunctionArg>) -> bool {
    forall|k: int| 0 <= k < args.len() ==> #[trigger] arg_expr(args[k]) is Literal
}

/// The constant a literal denotes.
pub open spec fn literal_value(l: Literal) -> ScalarValue {
    match l {
        Literal::Number(n) => number_value(n),
        Literal::Boolean(b) => ScalarValue::Boolean(b),
        Literal::Null => ScalarValue::Null,
        Literal::SingleQuotedString(s) => ScalarValue::Utf8(s),
    }
}

/// The named constant arguments, in order.
pub open spec fn named_args(args: Seq<FunctionArg>) -> Seq<(String, ScalarValue)>
    decreases args.len(),
{
    if args.len() == 0 {
        Seq::empty()
    } else {
        let prev = named_args(args.drop_last());
        match args.last() {
            FunctionArg::Named { name, arg: Expr::Literal(l) } => prev.push((name.value, literal_value(l))),
            _ => prev,
        }
    }
}

/// The unnamed constant arguments, in order.
pub open spec fn unnamed_args(args: Seq<FunctionArg>) -> Seq<ScalarValue>
    decreases args.len(),
{
    if args.len() == 0 {
        Seq::empty()
    } else {
        let prev = unnamed_args(args.drop_last());
        match args.last() {
            FunctionArg::Unnamed { arg: Expr::Literal(l) } => prev.push(literal_value(l)),
            _ => prev,
        }
    }
}

/// The scope of a scan of a bound table function: its columns under the
/// function's name.
pub open spec fn scan_items(bound: BoundTableFunction) -> Seq<ScopeColumn> {
    Seq::new(
        bound.column_names@.len(),
        |i: int|
            ScopeColumn {
                alias: Some(TableReference { database: None, schema: None, table: bound.name }),
                column: bound.column_names@[i],
            },
    )
}

/// Whether the column aliases, if any, are no more than `n`.
pub open spec fn alias_fits(alias: Option<FromAlias>, n: nat) -> bool {
    !(alias matches Some(a) && a.columns matches Some(cols) && cols@.len() > n)
}

/// `after` is the scope `before` with the alias applied: every column under
/// the alias's table, the first ones renamed by the column aliases.
pub open spec fn alias_rel(alias: Option<FromAlias>, before: Seq<ScopeColumn>, after: Seq<ScopeColumn>) -> bool {
    match alias {
        None => after == before,
        Some(a) => after.len() == before.len() && forall|i: int|
            0 <= i < after.len() ==> aliased_as(#[trigger] after[i], a.alias.value) && after[i].column
                == match a.columns {
                Some(cols) if i < cols@.len() => cols@[i].value,
                _ => before[i].column,
            },
    }
}

/// The number of output columns one select item gives.
pub open spec fn item_width(items: Seq<ScopeColumn>, se: SelectExpr) -> nat {
    match se {
        SelectExpr::Expr(_) => 1,
        SelectExpr::AliasedExpr(_, _) => 1,
        SelectExpr::Wildcard => items.len(),
        SelectExpr::QualifiedWildcard(p) => qual_indices(items, p@.last().value@, items.len()).len(),
    }
}

/// The number of output columns of a select list.
pub open spec fn total_width(items: Seq<ScopeColumn>, ses: Seq<SelectExpr>) -> nat
    decreases ses.len(),
{
    if ses.len() == 0 {
        0
    } else {
        total_width(items, ses.drop_last()) + item_width(items, ses.last())
    }
}

/// Whether one select item can be planned.
pub open spec fn item_ok(levels: Seq<Seq<ScopeColumn>>, se: SelectExpr) -> bool {
    match se {
        SelectExpr::Expr(e) => expr_ok(levels, e),
        SelectExpr::AliasedExpr(e, _) => expr_ok(levels, e),
        SelectExpr::Wildcard => true,
        SelectExpr::QualifiedWildcard(p) => p@.len() > 0,
    }
}

/// The expressions and names one select item plans to: an expression is
/// planned and named by its alias or `?column?`; `*` gives every column of
/// the scope, `t.*` those under table `t`, as column references.
pub open spec fn item_projected(
    levels: Seq<Seq<ScopeColumn>>,
    items: Seq<ScopeColumn>,
    se: SelectExpr,
    exprs: Seq<LogicalExpression>,
    names: Seq<Seq<char>>,
) -> bool {
    &&& exprs.len() == item_width(items, se)
    &&& names.len() == exprs.len()
    &&& match se {
        SelectExpr::Expr(e) => expr_rel(levels, e, exprs[0]) && names[0] == "?column?"@,
        SelectExpr::AliasedExpr(e, a) => expr_rel(levels, e, exprs[0]) && names[0] == a.value@,
        SelectExpr::Wildcard => forall|i: int|
            0 <= i < exprs.len() ==> #[trigger] exprs[i] == LogicalExpression::ColumnRef(
                ColumnRef { scope_level: 0, item_idx: i as usize },
            ) && names[i] == items[i].column@,
        SelectExpr::QualifiedWildcard(p) => forall|i: int|
            0 <= i < exprs.len() ==> #[trigger] exprs[i] == LogicalExpression::ColumnRef(
                ColumnRef {
                    scope_level: 0,
                    item_idx: qual_indices(items, p@.last().value@, items.len())[i] as usize,
                },
            ) && names[i] == items[qual_indices(items, p@.last().value@, items.len())[i] as int].column@,
    }
}

/// The expressions and names a select list plans to, item after item.
pub open spec fn projected(
    levels: Seq<Seq<ScopeColumn>>,
    items: Seq<ScopeColumn>,
    ses: Seq<SelectExpr>,
    exprs: Seq<LogicalExpression>,
    names: Seq<Seq<char>>,
) -> bool
    decreases ses.len(),
{
    if ses.len() == 0 {
        exprs.len() == 0 && names.len() == 0
    } else {
        let k = total_width(items, ses.drop_last());
        &&& k <= exprs.len()
        &&& exprs.len() == names.len()
        &&& projected(levels, items, ses.drop_last(), exprs.subrange(0, k as int), names.subrange(0, k as int))
        &&& item_projected(
            levels,
            items,
            ses.last(),
            exprs.subrange(k as int, exprs.len() as int),
            names.subrange(k as int, names.len() as int),
        )
    }
}

/// Whether a SELECT's WHERE expression and select list can be planned.
pub open spec fn select_ok(levels: Seq<Seq<ScopeColumn>>, w: Option<Expr>, ses: Seq<SelectExpr>) -> bool {
    &&& (w matches Some(x) ==> expr_ok(levels, x))
    &&& forall|k: int| 0 <= k < ses.len() ==> #[trigger] item_ok(levels, ses[k])
}

/// The names of scope columns.
pub open spec fn column_names(items: Seq<ScopeColumn>) -> Seq<Seq<char>> {
    items.map_values(|c: ScopeColumn| c.column@)
}

/// `q` is the plan of a SELECT over a FROM plan with root `froot`: a
/// projection of the planned select list over the WHERE filter, if any, over
/// `froot`; its scope holds the output names only.
pub open spec fn select_rel(
    levels: Seq<Seq<ScopeColumn>>,
    items: Seq<ScopeColumn>,
    w: Option<Expr>,
    ses: Seq<SelectExpr>,
    froot: LogicalOperator,
    q: LogicalQuery,
) -> bool {
    &&& q.root matches LogicalOperator::Projection { exprs, input } && (match w {
        Some(x) => *input matches LogicalOperator::Filter { predicate, input: fi } && expr_rel(
            levels,
            x,
            predicate,
        ) && *fi == froot,
        None => *input == froot,
    }) && projected(levels, items, ses, exprs@, column_names(q.scope.items@))
    &&& forall|c: int| 0 <= c < q.scope.items@.len() ==> (#[trigger] q.scope.items@[c]).alias is None
}

/// Whether a scope column answers to the bare table name `t`.
pub open spec fn aliased_as(item: ScopeColumn, t: String) -> bool {
    item.alias == Some(TableReference { database: None, schema: None, table: t })
}

/// The context of planning one query: the table-function resolver and the
/// scopes of the queries that enclose it, innermost first.
pub struct PlanContext<'a, R: Resolver> {
    /// Resolver for resolving table and other table like items.
    pub resolver: &'a R,
    /// Scopes outside this context.
    pub outer_scopes: Vec<Scope>,
}

impl<'a, R: Resolver> PlanContext<'a, R> {
    pub fn new(resolver: &'a R) -> (r: Self)
        ensures
            r.resolver == resolver,
            r.outer_scopes@.len() == 0,
    {
        PlanContext { resolver, outer_scopes: Vec::new() }
    }

    /// Plans a statement; only queries are supported.
    pub fn plan_statement(&mut self, stmt: Statement) -> (r: Result<LogicalQuery>)
        ensures
            !(stmt is Query) ==> (r matches Err(e) && e.kind == ErrorKind::NotImplemented),
            r matches Ok(q) ==> (q.root is Projection || q.root is ExpressionList),
            match stmt {
                Statement::Query(q) => {
                    &&& simple_query_ok(scope_items(old(self).outer_scopes@), q) ==> (r matches Ok(x)
                        && x.scope.items@.len() == simple_query_width(q))
                    &&& r matches Ok(x) ==> query_rel(scope_items(old(self).outer_scopes@), q, x)
                },
                _ => true,
            },
            *final(self) == *old(self),
    {
        match stmt {
            Statement::Query(query) => self.plan_query(query),
            _ => Err(
                RayexecError::with_kind(
                    ErrorKind::NotImplemented,
                    "Not yet implemented: planning this statement",
                ),
            ),
        }
    }

    /// A context for a subquery: `outer` becomes the innermost outer scope.
    pub fn nested(&self, outer: Scope) -> (r: Self)
        ensures
            r.resolver == self.resolver,
            scope_items(r.outer_scopes@) == seq![outer.items@] + scope_items(self.outer_scopes@),
    {
        let mut scopes: Vec<Scope> = Vec::new();
        scopes.push(outer);
        let mut i: usize = 0;
        while i < self.outer_scopes.len()
            invariant
                i <= self.outer_scopes@.len(),
                scopes@.len() == i + 1,
                scope_items(scopes@) == seq![outer.items@] + scope_items(
                    self.outer_scopes@.subrange(0, i as int),
                ),
            decreases self.outer_scopes@.len() - i,
        {
            let ghost before = scopes@;
            let c = self.outer_scopes[i].copy();
            scopes.push(c);
            proof {
                assert(scopes@ == before.push(c));
                assert(scope_items(scopes@) =~= scope_items(before).push(c.items@));
                assert(self.outer_scopes@.subrange(0, i + 1) =~= self.outer_scopes@.subrange(
                    0,
                    i as int,
                ).push(self.outer_scopes@[i as int]));
                assert(scope_items(self.outer_scopes@.subrange(0, i + 1)) =~= scope_items(
                    self.outer_scopes@.subrange(0, i as int),
                ).push(self.outer_scopes@[i as int].items@));
            }
            i = i + 1;
            proof {
                assert(scope_items(scopes@) =~= seq![outer.items@] + scope_items(
                    self.outer_scopes@.subrange(0, i as int),
                ));
            }
        }
        proof {
            assert(self.outer_scopes@.subrange(0, self.outer_scopes@.len() as int)
                =~= self.outer_scopes@);
        }
        PlanContext { resolver: self.resolver, outer_scopes: scopes }
    }

    /// Plans a query body: a SELECT or a VALUES list; set operations are not
    /// supported.
    pub fn plan_query(&mut self, query: QueryNode) -> (r: Result<LogicalQuery>)
        ensures
            query.body is SetOperation ==> (r matches Err(e) && e.kind == ErrorKind::NotImplemented),
            r matches Ok(q) ==> (q.root is Projection || q.root is ExpressionList),
            simple_query_ok(scope_items(old(self).outer_scopes@), query) ==> r is Ok,
            simple_query_ok(scope_items(old(self).outer_scopes@), query) ==> (r matches Ok(q)
                && q.scope.items@.len() == simple_query_width(query)),
            r matches Ok(q) ==> query_rel(scope_items(old(self).outer_scopes@), query, q),
            *final(self) == *old(self),
        decreases query,
    {
        match query.body {
            QueryNodeBody::Select(select) => self.plan_select(*select),
            QueryNodeBody::Values(values) => self.plan_values(values),
            QueryNodeBody::SetOperation => Err(
                RayexecError::with_kind(
                    ErrorKind::NotImplemented,
                    "Not yet implemented: set operations",
                ),
            ),
        }
    }

    /// Plans a SELECT: its FROM item (none gives one empty row), then its
    /// WHERE as a filter, then its select list as a projection whose scope
    /// holds the output column names only.
    pub fn plan_select(&mut self, select: SelectNode) -> (r: Result<LogicalQuery>)
        ensures
            r matches Ok(q) ==> select_query_rel(scope_items(old(self).outer_scopes@), select, q),
            select.from is None && select_ok(
                seq![Seq::<ScopeColumn>::empty()] + scope_items(old(self).outer_scopes@),
                select.where_expr,
                select.projections@,
            ) ==> r is Ok,
            select.from is None ==> (r matches Ok(q) ==> q.scope.items@.len() == total_width(
                Seq::empty(),
                select.projections@,
            )),
            *final(self) == *old(self),
        decreases select,
    {
        let ghost no_from = select.from is None;
        let ghost w0 = select.where_expr;
        let ghost from0 = select.from;
        let mut plan = match select.from {
            Some(from) => {
                let cur = Scope::empty();
                proof {
                    assert(cur.items@ =~= Seq::<ScopeColumn>::empty());
                }
                self.plan_from_node(from, cur)?
            },
            None => LogicalQuery { root: LogicalOperator::Empty, scope: Scope::empty() },
        };
        let ghost froot = plan.root;
        let ghost items = plan.scope.items@;
        let ghost levels = seq![items] + scope_items(self.outer_scopes@);
        proof {
            if select.from is None {
                assert(items =~= Seq::<ScopeColumn>::empty());
            }
            match from0 {
                Some(f) => {
                    assert(from_rel(scope_items(self.outer_scopes@), f, Seq::empty(), plan));
                    assert(froot == plan.root && items == plan.scope.items@);
                    assert(exists|fq: LogicalQuery|
                        #[trigger] from_rel(scope_items(self.outer_scopes@), f, Seq::empty(), fq)
                            && froot == fq.root && items == fq.scope.items@);
                },
                None => {},
            }
            assert(from_choice(scope_items(self.outer_scopes@), from0, froot, items));
        }
        let ghost outer = scope_items(self.outer_scopes@);
        let r = self.plan_select_body(plan, select.where_expr, select.projections);
        proof {
            if no_from {
                assert(levels =~= seq![Seq::<ScopeColumn>::empty()] + outer);
            }
            if r is Ok {
                assert(select_rel(levels, items, w0, select.projections@, froot, r->Ok_0));
            }
        }
        r
    }

    /// Plans the rest of a SELECT over the plan of its FROM item: the WHERE
    /// expression as a filter over that plan's root, then the select list as
    /// a projection against that plan's scope. Fails exactly when the WHERE
    /// expression or some select item cannot be planned.
    pub fn plan_select_body(
        &self,
        plan: LogicalQuery,
        where_expr: Option<Expr>,
        projections: Vec<SelectExpr>,
    ) -> (r: Result<LogicalQuery>)
        ensures
            r is Ok <==> select_ok(
                seq![plan.scope.items@] + scope_items(self.outer_scopes@),
                where_expr,
                projections@,
            ),
            r matches Ok(q) ==> select_rel(
                seq![plan.scope.items@] + scope_items(self.outer_scopes@),
                plan.scope.items@,
                where_expr,
                projections@,
                plan.root,
                q,
            ),
            r matches Ok(q) ==> q.scope.items@.len() == total_width(plan.scope.items@, projections@),
    {
        let ghost froot = plan.root;
        let ghost items = plan.scope.items@;
        let ghost levels = seq![items] + scope_items(self.outer_scopes@);
        let ghost w0 = where_expr;
        let LogicalQuery { root: from_root, scope } = plan;
        let input = match where_expr {
            Some(w) => {
                let expr_ctx = ExpressionContext::new(self, &scope);
                let expr = match expr_ctx.plan_expression(w) {
                    Ok(e) => e,
                    Err(e) => {
                        return Err(e);
                    },
                };
                LogicalOperator::Filter { predicate: expr, input: Box::new(from_root) }
            },
            None => from_root,
        };
        let expr_ctx = ExpressionContext::new(self, &scope);
        let ghost orig = projections@;
        let mut rest = projections;
        let mut select_exprs: Vec<LogicalExpression> = Vec::new();
        let mut names: Vec<String> = Vec::new();
        let ghost mut i: int = 0;
        while rest.len() > 0
            invariant
                0 <= i <= orig.len(),
                orig == projections@,
                rest@ == orig.subrange(i, orig.len() as int),
                levels == expr_ctx.levels(),
                items == expr_ctx.scope.items@,
                levels == seq![items] + scope_items(self.outer_scopes@),
                w0 == where_expr,
                items == plan.scope.items@,
                froot == plan.root,
                w0 matches Some(x) ==> expr_ok(levels, x),
                forall|k: int| 0 <= k < i ==> #[trigger] item_ok(levels, orig[k]),
                select_exprs@.len() == total_width(items, orig.subrange(0, i)),
                projected(
                    levels,
                    items,
                    orig.subrange(0, i),
                    select_exprs@,
                    names@.map_values(|n: String| n@),
                ),
            decreases rest@.len(),
        {
            let se = rest.remove(0);
            proof {
                assert(se == orig[i]);
            }
            let (mut e, mut n) = match plan_select_item(&expr_ctx, se) {
                Ok(x) => x,
                Err(err) => {
                    proof {
                        assert(!item_ok(levels, orig[i]));
                        assert(!select_ok(levels, w0, orig));
                    }
                    return Err(err);
                },
            };
            let ghost old_e = select_exprs@;
            let ghost old_n = names@.map_values(|x: String| x@);
            let ghost ev = e@;
            let ghost nv = n@.map_values(|x: String| x@);
            select_exprs.append(&mut e);
            names.append(&mut n);
            proof {
                let pre = orig.subrange(0, i + 1);
                assert(pre.drop_last() =~= orig.subrange(0, i));
                assert(pre.last() == orig[i]);
                let nm = names@.map_values(|x: String| x@);
                assert(nm =~= old_n + nv);
                assert(select_exprs@.subrange(0, old_e.len() as int) =~= old_e);
                assert(select_exprs@.subrange(old_e.len() as int, select_exprs@.len() as int) =~= ev);
                assert(nm.subrange(0, old_e.len() as int) =~= old_n);
                assert(nm.subrange(old_e.len() as int, nm.len() as int) =~= nv);
                i = i + 1;
                assert(rest@ =~= orig.subrange(i, orig.len() as int));
            }
        }
        proof {
            assert(orig.subrange(0, orig.len() as int) =~= orig);
        }
        let ghost nv = names@.map_values(|x: String| x@);
        let root = LogicalOperator::Projection { exprs: select_exprs, input: Box::new(input) };
        let q = LogicalQuery { root, scope: Scope::with_columns(None, names) };
        proof {
            assert(column_names(q.scope.items@) =~= nv);
            assert(select_rel(levels, items, w0, orig, froot, q));
        }
        Ok(q)
    }

    /// Plans a FROM item: a subquery (planned with `current_scope` as its
    /// innermost outer scope) or a table function with constant arguments,
    /// then applies the item's alias. Base tables and joins are not
    /// supported.
    pub fn plan_from_node(&self, from: FromNode, current_scope: Scope) -> (r: Result<LogicalQuery>)
        ensures
            (from.body is BaseTable || from.body is Join) ==> (r matches Err(e) && e.kind
                == ErrorKind::NotImplemented),
            r matches Ok(q) ==> (q.root is Projection || q.root is ExpressionList || q.root is Scan),
            from.body matches FromNodeBody::TableFunction { args, .. } ==> {
                &&& !args_constant(args@) ==> (r matches Err(e) && e.kind == ErrorKind::InvalidArgument)
            },
            r matches Ok(q) ==> from_rel(
                scope_items(self.outer_scopes@),
                from,
                current_scope.items@,
                q,
            ),
            match from.body {
                FromNodeBody::Subquery(sq) => r matches Ok(q) ==> exists|inner: LogicalQuery|
                    #[trigger] query_rel(
                        seq![current_scope.items@] + scope_items(self.outer_scopes@),
                        *sq,
                        inner,
                    ) && q.root == inner.root && alias_rel(
                        from.alias,
                        inner.scope.items@,
                        q.scope.items@,
                    ),
                _ => true,
            },
            from.body matches FromNodeBody::Subquery(q) && simple_query_ok(
                seq![current_scope.items@] + scope_items(self.outer_scopes@),
                *q,
            ) && alias_fits(from.alias, simple_query_width(*q)) ==> r is Ok,
        decreases from,
    {
        let ghost from0 = from;
        let ghost cur_items = current_scope.items@;
        let ghost outer = scope_items(self.outer_scopes@);
        let body = match from.body {
            FromNodeBody::BaseTable(_) => {
                return Err(
                    RayexecError::with_kind(
                        ErrorKind::NotImplemented,
                        "Not yet implemented: base tables",
                    ),
                );
            },
            FromNodeBody::Subquery(query) => {
                let mut nested = self.nested(current_scope);
                let ghost sq = *query;
                let inner = nested.plan_query(*query)?;
                proof {
                    assert(query_rel(seq![cur_items] + outer, sq, inner));
                }
                inner
            },
            FromNodeBody::TableFunction { reference, args } => {
                let empty = Scope::empty();
                let expr_ctx = ExpressionContext::new(self, &empty);
                let func_args = plan_function_args(&expr_ctx, args)?;
                let bound = self.resolver.bind_table_function(&reference, func_args.0)?;
                let q = scan_query(bound, func_args.1);
                q
            },
            FromNodeBody::Join => {
                return Err(
                    RayexecError::with_kind(ErrorKind::NotImplemented, "Not yet implemented: joins"),
                );
            },
        };
        let ghost body0 = body;
        let aliased_scope = Self::apply_alias(body.scope, from.alias)?;
        let q = LogicalQuery { root: body.root, scope: aliased_scope };
        proof {
            match from0.body {
                FromNodeBody::Subquery(sq) => {
                    assert(query_rel(seq![cur_items] + outer, *sq, body0));
                    assert(q.root == body0.root);
                    assert(alias_rel(from0.alias, body0.scope.items@, q.scope.items@));
                },
                FromNodeBody::TableFunction { args, .. } => {
                    assert(alias_rel(from0.alias, body0.scope.items@, q.scope.items@));
                    assert(q.root == body0.root);
                },
                _ => {},
            }
            assert(from_rel(outer, from0, cur_items, q));
        }
        Ok(q)
    }

    /// Applies a table alias, and column aliases if given, to a scope: every
    /// column moves under the alias, and the first columns take the column
    /// aliases in order; fails with `InvalidArgument` when there are more
    /// column aliases than columns.
    pub fn apply_alias(scope: Scope, alias: Option<FromAlias>) -> (r: Result<Scope>)
        ensures
            r is Ok <==> alias_fits(alias, scope.items@.len()),
            r matches Ok(sc) ==> alias_rel(alias, scope.items@, sc.items@),
            r matches Err(e) ==> e.kind == ErrorKind::InvalidArgument,
    {
        match alias {
            None => Ok(scope),
            Some(FromAlias { alias, columns }) => {
                let n = scope.items.len();
                match &columns {
                    Some(cols) => {
                        if cols.len() > n {
                            return Err(
                                RayexecError::with_kind(
                                    ErrorKind::InvalidArgument,
                                    "More column aliases than columns",
                                ),
                            );
                        }
                    },
                    None => {},
                }
                let ghost cols_v = columns;
                let reference = TableReference::bare(alias.value);
                let mut items: Vec<ScopeColumn> = Vec::new();
                let mut i: usize = 0;
                while i < n
                    invariant
                        i <= n,
                        n == scope.items@.len(),
                        columns == cols_v,
                        cols_v matches Some(cols) ==> cols@.len() <= n,
                        items@.len() == i,
                        reference == (TableReference { database: None, schema: None, table: alias.value }),
                        forall|k: int|
                            0 <= k < i ==> aliased_as(#[trigger] items@[k], alias.value)
                                && items@[k].column == match cols_v {
                                Some(cols) if k < cols@.len() => cols@[k].value,
                                _ => scope.items@[k].column,
                            },
                    decreases n - i,
                {
                    let column = match &columns {
                        Some(cols) => {
                            if i < cols.len() {
                                cols[i].value.clone()
                            } else {
                                scope.items[i].column.clone()
                            }
                        },
                        None => scope.items[i].column.clone(),
                    };
                    items.push(ScopeColumn { alias: Some(reference.copy()), column });
                    i = i + 1;
                }
                Ok(Scope { items })
            },
        }
    }

    /// Plans a VALUES list: each expression is planned with no columns in
    /// scope, and the output columns are named `column1`, `column2`, ...
    /// after the first row. Fails with `InvalidArgument` when there are no
    /// rows.
    pub fn plan_values(&self, values: Values) -> (r: Result<LogicalQuery>)
        ensures
            values.rows@.len() == 0 ==> (r matches Err(e) && e.kind == ErrorKind::InvalidArgument),
            values.rows@.len() > 0 && values.rows@[0]@.len() < usize::MAX && (forall|i: int, j: int|
                0 <= i < values.rows@.len() && 0 <= j < values.rows@[i]@.len() ==> expr_ok(
                    seq![Seq::<ScopeColumn>::empty()] + scope_items(self.outer_scopes@),
                    #[trigger] values.rows@[i]@[j],
                )) ==> r is Ok,
            r is Ok ==> forall|i: int, j: int|
                0 <= i < values.rows@.len() && 0 <= j < values.rows@[i as int]@.len() ==> expr_ok(
                    seq![Seq::<ScopeColumn>::empty()] + scope_items(self.outer_scopes@),
                    #[trigger] values.rows@[i as int]@[j],
                ),
            r matches Ok(q) ==> {
                &&& q.root matches LogicalOperator::ExpressionList { rows } && rows@.len()
                    == values.rows@.len() && forall|i: int|
                    0 <= i < rows@.len() ==> (#[trigger] rows@[i as int])@.len() == values.rows@[i as int]@.len()
                        && forall|j: int|
                        0 <= j < rows@[i as int]@.len() ==> expr_rel(
                            seq![Seq::<ScopeColumn>::empty()] + scope_items(self.outer_scopes@),
                            values.rows@[i as int]@[j],
                            #[trigger] rows@[i as int]@[j],
                        )
                &&& q.scope.items@.len() == values.rows@[0]@.len()
                &&& forall|c: int|
                    0 <= c < q.scope.items@.len() ==> (#[trigger] q.scope.items@[c]).alias is None
                        && q.scope.items@[c].column@ == values_column_name(c as nat)
            },
    {
        if values.rows.len() == 0 {
            return Err(RayexecError::with_kind(ErrorKind::InvalidArgument, "Empty VALUES expression"));
        }
        let empty = Scope::empty();
        let expr_ctx = ExpressionContext::new(self, &empty);
        let num_cols = values.rows[0].len();
        if num_cols == usize::MAX {
            return Err(RayexecError::with_kind(ErrorKind::InvalidArgument, "Too many VALUES columns"));
        }
        let ghost levels = expr_ctx.levels();
        proof {
            assert(empty.items@ =~= Seq::<ScopeColumn>::empty());
            assert(levels == seq![Seq::<ScopeColumn>::empty()] + scope_items(self.outer_scopes@));
        }
        let ghost orig = values.rows@;
        let mut rows_in = values.rows;
        let mut rows: Vec<Vec<LogicalExpression>> = Vec::new();
        let ghost mut i: int = 0;
        while rows_in.len() > 0
            invariant
                orig == values.rows@,
                orig.len() > 0,
                rows_in@ == orig.subrange(i, orig.len() as int),
                i <= orig.len(),
                rows@.len() == i,
                levels == expr_ctx.levels(),
                levels == seq![Seq::<ScopeColumn>::empty()] + scope_items(self.outer_scopes@),
                forall|a: int, j: int|
                    0 <= a < i && 0 <= j < orig[a]@.len() ==> expr_ok(levels, #[trigger] orig[a]@[j]),
                forall|a: int|
                    0 <= a < i ==> (#[trigger] rows@[a])@.len() == orig[a]@.len() && forall|j: int|
                        0 <= j < rows@[a]@.len() ==> expr_rel(levels, orig[a]@[j], #[trigger] rows@[a]@[j]),
            decreases orig.len() - i,
        {
            let mut row_in = rows_in.remove(0);
            proof {
                assert(row_in == orig[i]);
            }
            let mut row: Vec<LogicalExpression> = Vec::new();
            let ghost mut j: int = 0;
            while row_in.len() > 0
                invariant
                    orig == values.rows@,
                    orig.len() > 0,
                    0 <= j,
                    0 <= i,
                    row_in@ == orig[i]@.subrange(j, orig[i]@.len() as int),
                    i < orig.len(),
                    j <= orig[i]@.len(),
                    row@.len() == j,
                    levels == expr_ctx.levels(),
                    levels == seq![Seq::<ScopeColumn>::empty()] + scope_items(self.outer_scopes@),
                    forall|k: int| 0 <= k < j ==> expr_ok(levels, #[trigger] orig[i]@[k]),
                    forall|k: int| 0 <= k < j ==> expr_rel(levels, orig[i]@[k], #[trigger] row@[k]),
                decreases orig[i]@.len() - j,
            {
                let e = row_in.remove(0);
                proof {
                    assert(e == orig[i]@[j]);
                }
                let planned = match expr_ctx.plan_expression(e) {
                    Ok(p) => p,
                    Err(err) => {
                        proof {
                            assert(0 <= i < values.rows@.len());
                            assert(0 <= j < values.rows@[i]@.len());
                            assert(!expr_ok(levels, values.rows@[i]@[j]));
                        }
                        return Err(err);
                    },
                };
                row.push(planned);
                proof {
                    j = j + 1;
                    assert(row_in@ =~= orig[i]@.subrange(j, orig[i]@.len() as int));
                }
            }
            rows.push(row);
            proof {
                i = i + 1;
                assert(rows_in@ =~= orig.subrange(i, orig.len() as int));
            }
        }
        let mut names: Vec<String> = Vec::new();
        let mut c: usize = 0;
        while c < num_cols
            invariant
                c <= num_cols,
                names@.len() == c,
                forall|k: int| 0 <= k < c ==> (#[trigger] names@[k])@ == values_column_name(k as nat),
            decreases num_cols - c,
        {
            names.push(values_column(c));
            c = c + 1;
        }
        let scope = Scope::with_columns(None, names);
        Ok(LogicalQuery { root: LogicalOperator::ExpressionList { rows }, scope })
    }
}

/// How one expanded select item is planned: an expression is planned, a
/// column becomes a reference into the current scope.
pub open spec fn entry_rel(
    levels: Seq<Seq<ScopeColumn>>,
    ent: ExpandedSelectExpr,
    out: LogicalExpression,
    name: Seq<char>,
) -> bool {
    match ent {
        ExpandedSelectExpr::Expr { expr, name: n } => expr_rel(levels, expr, out) && name == n@,
        ExpandedSelectExpr::Column { idx, name: n } => out == LogicalExpression::ColumnRef(
            ColumnRef { scope_level: 0, item_idx: idx },
        ) && name == n@,
    }
}

/// Plans one item of a select list: its expansion, each part planned.
pub fn plan_select_item<R: Resolver>(ctx: &ExpressionContext<R>, se: SelectExpr) -> (r: Result<
    (Vec<LogicalExpression>, Vec<String>),
>)
    ensures
        r is Ok <==> item_ok(ctx.levels(), se),
        r matches Ok((e, n)) ==> item_projected(
            ctx.levels(),
            ctx.scope.items@,
            se,
            e@,
            n@.map_values(|x: String| x@),
        ),
{
    let ghost levels = ctx.levels();
    let ghost se0 = se;
    let v = match ctx.expand_select_expr(se) {
        Ok(v) => v,
        Err(e) => {
            return Err(e);
        },
    };
    let ghost v0 = v@;
    proof {
        assert(se0 matches SelectExpr::Expr(_) ==> v0.len() == 1);
        assert(se0 matches SelectExpr::AliasedExpr(_, _) ==> v0.len() == 1);
        assert forall|m: int| 0 <= m < v0.len() && !(se0 is Expr || se0 is AliasedExpr) implies #[trigger] v0[m] is Column by {
            if se0 is Wildcard {
                assert(v0[m] == v@[m]);
            }
        }
    }
    let mut rest = v;
    let mut exprs: Vec<LogicalExpression> = Vec::new();
    let mut names: Vec<String> = Vec::new();
    let ghost mut k: int = 0;
    while rest.len() > 0
        invariant
            0 <= k <= v0.len(),
            rest@ == v0.subrange(k, v0.len() as int),
            levels == ctx.levels(),
            exprs@.len() == k,
            names@.len() == k,
            forall|m: int| 0 <= m < k ==> entry_rel(levels, v0[m], exprs@[m], #[trigger] names@[m]@),
            forall|m: int|
                0 <= m < k ==> (#[trigger] v0[m] matches ExpandedSelectExpr::Expr { expr, .. }
                    ==> expr_ok(levels, expr)),
            v0 == v@,
            se0 is Expr || se0 is AliasedExpr ==> v0.len() == 1,
            se0 == se,
            se0 matches SelectExpr::Expr(e) ==> v0[0] matches ExpandedSelectExpr::Expr { expr, .. } && expr == e,
            se0 matches SelectExpr::AliasedExpr(e, _) ==> v0[0] matches ExpandedSelectExpr::Expr { expr, .. } && expr == e,
            forall|m: int|
                0 <= m < v0.len() && !(se0 is Expr || se0 is AliasedExpr) ==> #[trigger] v0[m] is Column,
        decreases rest@.len(),
    {
        proof {
            assert(k < v0.len());
        }
        let ent = rest.remove(0);
        proof {
            assert(ent == v0[k]);
        }
        match ent {
            ExpandedSelectExpr::Expr { expr, name } => {
                let planned = match ctx.plan_expression(expr) {
                    Ok(x) => x,
                    Err(err) => {
                        proof {
                            assert(v0[k] is Expr);
                            match se0 {
                                SelectExpr::Expr(e) => {
                                    assert(k == 0);
                                },
                                SelectExpr::AliasedExpr(e, _) => {
                                    assert(k == 0);
                                },
                                SelectExpr::Wildcard => {
                                    assert(v0[k] is Column);
                                },
                                SelectExpr::QualifiedWildcard(_) => {
                                    assert(v0[k] is Column);
                                },
                            }
                        }
                        return Err(err);
                    },
                };
                exprs.push(planned);
                names.push(name);
            },
            ExpandedSelectExpr::Column { idx, name } => {
                exprs.push(LogicalExpression::ColumnRef(ColumnRef { scope_level: 0, item_idx: idx }));
                names.push(name);
            },
        }
        proof {
            k = k + 1;
            assert(rest@ =~= v0.subrange(k, v0.len() as int));
        }
    }
    proof {
        let nv = names@.map_values(|x: String| x@);
        assert forall|m: int| 0 <= m < k implies entry_rel(levels, v0[m], exprs@[m], #[trigger] nv[m]) by {
            assert(nv[m] == names@[m]@);
        }
        assert(k == v0.len());
        match se0 {
            SelectExpr::Expr(e) => {
                assert(entry_rel(levels, v0[0], exprs@[0], nv[0]));
            },
            SelectExpr::AliasedExpr(e, _) => {
                assert(entry_rel(levels, v0[0], exprs@[0], nv[0]));
            },
            SelectExpr::Wildcard => {
                assert forall|i: int| 0 <= i < exprs@.len() implies #[trigger] exprs@[i]
                    == LogicalExpression::ColumnRef(ColumnRef { scope_level: 0, item_idx: i as usize })
                    && nv[i] == ctx.scope.items@[i].column@ by {
                    assert(entry_rel(levels, v0[i], exprs@[i], nv[i]));
                }
            },
            SelectExpr::QualifiedWildcard(p) => {
                let qi = qual_indices(ctx.scope.items@, p@.last().value@, ctx.scope.items@.len());
                assert forall|i: int| 0 <= i < exprs@.len() implies #[trigger] exprs@[i]
                    == LogicalExpression::ColumnRef(ColumnRef { scope_level: 0, item_idx: qi[i] as usize })
                    && nv[i] == ctx.scope.items@[qi[i] as int].column@ by {
                    assert(entry_rel(levels, v0[i], exprs@[i], nv[i]));
                }
            },
        }
        assert(item_projected(levels, ctx.scope.items@, se0, exprs@, nv));
    }
    Ok((exprs, names))
}

/// Plans the arguments of a table function, which must be constants, and
/// fails with `InvalidArgument` otherwise. Returns them twice: once for
/// binding and once for the scan.
fn plan_function_args<R: Resolver>(ctx: &ExpressionContext<R>, args: Vec<FunctionArg>) -> (r: Result<
    (TableFunctionArgs, TableFunctionArgs),
>)
    ensures
        r is Ok <==> args_constant(args@),
        r matches Ok((a, b)) ==> a.named@ == named_args(args@) && a.unnamed@ == unnamed_args(args@)
            && b.named@ == named_args(args@) && b.unnamed@ == unnamed_args(args@),
        r matches Err(e) ==> e.kind == ErrorKind::InvalidArgument,
{
    let mut k: usize = 0;
    while k < args.len()
        invariant
            k <= args@.len(),
            forall|m: int| 0 <= m < k ==> #[trigger] arg_expr(args@[m]) is Literal,
        decreases args@.len() - k,
    {
        let constant = match &args[k] {
            FunctionArg::Named { arg: Expr::Literal(_), .. } => true,
            FunctionArg::Unnamed { arg: Expr::Literal(_) } => true,
            _ => false,
        };
        if !constant {
            proof {
                assert(!(arg_expr(args@[k as int]) is Literal));
            }
            return Err(
                RayexecError::with_kind(
                    ErrorKind::InvalidArgument,
                    "Argument to table function is not a constant",
                ),
            );
        }
        k = k + 1;
    }
    let ghost orig = args@;
    let mut a = TableFunctionArgs { named: Vec::new(), unnamed: Vec::new() };
    let mut b = TableFunctionArgs { named: Vec::new(), unnamed: Vec::new() };
    let mut rest = args;
    let ghost mut i: int = 0;
    while rest.len() > 0
        invariant
            0 <= i <= orig.len(),
            rest@ == orig.subrange(i, orig.len() as int),
            args_constant(orig),
            a.named@ == named_args(orig.subrange(0, i)),
            a.unnamed@ == unnamed_args(orig.subrange(0, i)),
            b.named@ == a.named@,
            b.unnamed@ == a.unnamed@,
        decreases rest@.len(),
    {
        let arg = rest.remove(0);
        proof {
            assert(arg == orig[i]);
            assert(arg_expr(orig[i]) is Literal);
            assert(orig.subrange(0, i + 1).drop_last() =~= orig.subrange(0, i));
            assert(orig.subrange(0, i + 1).last() == orig[i]);
        }
        match arg {
            FunctionArg::Named { name, arg } => {
                let v = match ctx.plan_expression(arg) {
                    Ok(LogicalExpression::Literal(v)) => v,
                    _ => {
                        proof {
                            assert(false);
                        }
                        return Err(
                            RayexecError::with_kind(ErrorKind::InvalidArgument, "Argument is not a constant"),
                        );
                    },
                };
                a.named.push((name.value.clone(), copy_scalar(&v)));
                b.named.push((name.value, v));
            },
            FunctionArg::Unnamed { arg } => {
                let v = match ctx.plan_expression(arg) {
                    Ok(LogicalExpression::Literal(v)) => v,
                    _ => {
                        proof {
                            assert(false);
                        }
                        return Err(
                            RayexecError::with_kind(ErrorKind::InvalidArgument, "Argument is not a constant"),
                        );
                    },
                };
                a.unnamed.push(copy_scalar(&v));
                b.unnamed.push(v);
            },
        }
        proof {
            i = i + 1;
            assert(rest@ =~= orig.subrange(i, orig.len() as int));
            assert(a.named@ =~= named_args(orig.subrange(0, i)));
            assert(a.unnamed@ =~= unnamed_args(orig.subrange(0, i)));
            assert(b.named@ =~= a.named@);
            assert(b.unnamed@ =~= a.unnamed@);
        }
    }
    proof {
        assert(orig.subrange(0, orig.len() as int) =~= orig);
    }
    Ok((a, b))
}

/// A copy of a constant.
pub fn copy_scalar(v: &ScalarValue) -> (r: ScalarValue)
    ensures
        r == *v,
{
    match v {
        ScalarValue::Null => ScalarValue::Null,
        ScalarValue::Boolean(b) => ScalarValue::Boolean(*b),
        ScalarValue::Int64(x) => ScalarValue::Int64(*x),
        ScalarValue::UInt64(x) => ScalarValue::UInt64(*x),
        ScalarValue::Float64(x) => ScalarValue::Float64(x.clone()),
        ScalarValue::Utf8(s) => ScalarValue::Utf8(s.clone()),
    }
}

/// The query that scans a bound table function: its output columns make a
/// scope under the function's name.
pub fn scan_query(bound: BoundTableFunction, args: TableFunctionArgs) -> (r: LogicalQuery)
    ensures
        r.root == (LogicalOperator::Scan { source: bound, args }),
        r.scope.items@ == scan_items(bound),
        r.scope.items@.len() == bound.column_names@.len(),
        forall|i: int|
            0 <= i < r.scope.items@.len() ==> aliased_as(#[trigger] r.scope.items@[i as int], bound.name)
                && r.scope.items@[i as int].column == bound.column_names@[i as int],
{
    let mut names: Vec<String> = Vec::new();
    let mut i: usize = 0;
    while i < bound.column_names.len()
        invariant
            i <= bound.column_names@.len(),
            names@ == bound.column_names@.subrange(0, i as int),
        decreases bound.column_names@.len() - i,
    {
        names.push(bound.column_names[i].clone());
        i = i + 1;
        proof {
            assert(names@ =~= bound.column_names@.subrange(0, i as int));
        }
    }
    proof {
        assert(bound.column_names@.subrange(0, bound.column_names@.len() as int)
            =~= bound.column_names@);
    }
    let reference = TableReference::bare(bound.name.clone());
    let scope = Scope::with_columns(Some(reference), names);
    proof {
        assert(scope.items@ =~= scan_items(bound));
    }
    LogicalQuery { root: LogicalOperator::Scan { source: bound, args }, scope }
}

} // verus!
