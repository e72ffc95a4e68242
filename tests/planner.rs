use rayexec::ast::{
    BinaryOperator, Expr, FromAlias, FromNode, FromNodeBody, FunctionArg, Ident, Literal,
    QueryNode, QueryNodeBody, SelectExpr, SelectNode, Statement, Values,
};
use rayexec::datasource::{
    fields_from_columns, Field, PostgresCatalog, ScanSource, TableEntry,
};
use rayexec::datatype::DataType;
use rayexec::error::{ErrorKind, Result};
use rayexec::explain::{
    ExplainConfig, ExplainValue, LogicalMaterializationScan, MaterializationRef, TableRef,
};
use rayexec::expr::{ExpandedSelectExpr, ExpressionContext};
use rayexec::logical::{
    BoundTableFunction, LogicalExpression, LogicalOperator, ScalarValue, TableFunctionArgs,
};
use rayexec::plan::{PlanContext, Resolver};
use rayexec::scope::{ColumnRef, Scope, ScopeColumn, TableReference};

struct Functions;

impl Resolver for Functions {
    fn bind_table_function(
        &self,
        reference: &Vec<Ident>,
        args: TableFunctionArgs,
    ) -> Result<BoundTableFunction> {
        assert_eq!(args.unnamed.len(), 1);
        Ok(BoundTableFunction {
            name: reference[0].value.clone(),
            column_names: vec!["a".to_string(), "b".to_string()],
            column_types: vec![DataType::Int64, DataType::Utf8],
        })
    }
}

fn ident(s: &str) -> Ident {
    Ident { value: s.to_string() }
}

fn scope_of(table: &str, cols: &[&str]) -> Scope {
    Scope::with_columns(
        Some(TableReference::bare(table.to_string())),
        cols.iter().map(|c| c.to_string()).collect(),
    )
}

#[test]
fn literals() {
    let ctx = PlanContext::new(&Functions);
    let scope = Scope::empty();
    let e = ExpressionContext::new(&ctx, &scope);
    let lit = |s: &str| e.plan_literal(Literal::Number(s.to_string())).unwrap();
    assert_eq!(lit("42"), LogicalExpression::Literal(ScalarValue::Int64(42)));
    assert_eq!(lit("-7"), LogicalExpression::Literal(ScalarValue::Int64(-7)));
    assert_eq!(
        lit("18446744073709551615"),
        LogicalExpression::Literal(ScalarValue::UInt64(u64::MAX))
    );
    assert_eq!(
        lit("1.5"),
        LogicalExpression::Literal(ScalarValue::Float64("1.5".to_string()))
    );
}

#[test]
fn columns_resolve_inner_then_outer() {
    let mut ctx = PlanContext::new(&Functions);
    ctx.outer_scopes.push(scope_of("o", &["x", "y"]));
    let scope = scope_of("t", &["y", "z"]);
    let e = ExpressionContext::new(&ctx, &scope);
    assert_eq!(
        e.plan_expression(Expr::Ident(ident("z"))).unwrap(),
        LogicalExpression::ColumnRef(ColumnRef { scope_level: 0, item_idx: 1 })
    );
    assert_eq!(
        e.plan_expression(Expr::Ident(ident("x"))).unwrap(),
        LogicalExpression::ColumnRef(ColumnRef { scope_level: 1, item_idx: 0 })
    );
    assert_eq!(
        e.plan_expression(Expr::CompoundIdent(vec![ident("o"), ident("y")]))
            .unwrap(),
        LogicalExpression::ColumnRef(ColumnRef { scope_level: 1, item_idx: 1 })
    );
    let err = e.plan_expression(Expr::Ident(ident("w"))).unwrap_err();
    assert_eq!(err.kind, ErrorKind::Lookup);
    let err = e
        .plan_expression(Expr::CompoundIdent(vec![
            ident("a"),
            ident("b"),
            ident("c"),
            ident("d"),
            ident("e"),
        ]))
        .unwrap_err();
    assert_eq!(err.kind, ErrorKind::InvalidArgument);
}

#[test]
fn ambiguous_column_is_an_error() {
    let ctx = PlanContext::new(&Functions);
    let mut scope = scope_of("t", &["a"]);
    scope.items.push(ScopeColumn { alias: Some(TableReference::bare("u".to_string())), column: "a".to_string() });
    let e = ExpressionContext::new(&ctx, &scope);
    assert!(e.plan_expression(Expr::Ident(ident("a"))).is_err());
    assert_eq!(
        e.plan_expression(Expr::CompoundIdent(vec![ident("u"), ident("a")])).unwrap(),
        LogicalExpression::ColumnRef(ColumnRef { scope_level: 0, item_idx: 1 })
    );
}

#[test]
fn binary_expressions() {
    let ctx = PlanContext::new(&Functions);
    let scope = scope_of("t", &["a"]);
    let e = ExpressionContext::new(&ctx, &scope);
    let planned = e
        .plan_expression(Expr::BinaryExpr {
            left: Box::new(Expr::Ident(ident("a"))),
            op: BinaryOperator::Plus,
            right: Box::new(Expr::Literal(Literal::Number("1".to_string()))),
        })
        .unwrap();
    assert_eq!(
        planned,
        LogicalExpression::Binary {
            op: BinaryOperator::Plus,
            left: Box::new(LogicalExpression::ColumnRef(ColumnRef { scope_level: 0, item_idx: 0 })),
            right: Box::new(LogicalExpression::Literal(ScalarValue::Int64(1))),
        }
    );
}

#[test]
fn expand_wildcards() {
    let ctx = PlanContext::new(&Functions);
    let mut scope = scope_of("t", &["a", "b"]);
    scope.items.push(ScopeColumn { alias: Some(TableReference::bare("u".to_string())), column: "c".to_string() });
    let e = ExpressionContext::new(&ctx, &scope);
    let all = e.expand_select_expr(SelectExpr::Wildcard).unwrap();
    assert_eq!(all.len(), 3);
    let names: Vec<&str> = all.iter().map(|x| x.column_name()).collect();
    assert_eq!(names, vec!["a", "b", "c"]);
    let only_u = e
        .expand_select_expr(SelectExpr::QualifiedWildcard(vec![ident("u")]))
        .unwrap();
    assert_eq!(only_u, vec![ExpandedSelectExpr::Column { idx: 2, name: "c".to_string() }]);
    let unnamed = e
        .expand_select_expr(SelectExpr::Expr(Expr::Literal(Literal::Null)))
        .unwrap();
    assert_eq!(unnamed[0].column_name(), "?column?");
}

#[test]
fn values_lists() {
    let ctx = PlanContext::new(&Functions);
    let values = Values {
        rows: vec![vec![
            Expr::Literal(Literal::Number("1".to_string())),
            Expr::Literal(Literal::SingleQuotedString("x".to_string())),
        ]],
    };
    let q = ctx.plan_values(values).unwrap();
    let names: Vec<&str> = q.scope.items.iter().map(|c| c.column.as_str()).collect();
    assert_eq!(names, vec!["column1", "column2"]);
    assert_eq!(
        q.root,
        LogicalOperator::ExpressionList {
            rows: vec![vec![
                LogicalExpression::Literal(ScalarValue::Int64(1)),
                LogicalExpression::Literal(ScalarValue::Utf8("x".to_string())),
            ]]
        }
    );
    let err = ctx.plan_values(Values { rows: vec![] }).unwrap_err();
    assert_eq!(err.kind, ErrorKind::InvalidArgument);
}

#[test]
fn aliases() {
    let scope = scope_of("t", &["a", "b"]);
    let s = PlanContext::<Functions>::apply_alias(
        scope,
        Some(FromAlias { alias: ident("q"), columns: Some(vec![ident("x")]) }),
    )
    .unwrap();
    let cols: Vec<&str> = s.items.iter().map(|c| c.column.as_str()).collect();
    assert_eq!(cols, vec!["x", "b"]);
    assert!(s.items.iter().all(|c| c.alias == Some(TableReference::bare("q".to_string()))));
    let err = PlanContext::<Functions>::apply_alias(
        scope_of("t", &["a"]),
        Some(FromAlias { alias: ident("q"), columns: Some(vec![ident("x"), ident("y")]) }),
    )
    .unwrap_err();
    assert_eq!(err.kind, ErrorKind::InvalidArgument);
}

#[test]
fn select_from_table_function() {
    let mut ctx = PlanContext::new(&Functions);
    let select = SelectNode {
        projections: vec![SelectExpr::Wildcard],
        from: Some(FromNode {
            alias: None,
            body: FromNodeBody::TableFunction {
                reference: vec![ident("gen")],
                args: vec![FunctionArg::Unnamed { arg: Expr::Literal(Literal::Number("3".to_string())) }],
            },
        }),
        where_expr: Some(Expr::Ident(ident("a"))),
    };
    let q = ctx
        .plan_statement(Statement::Query(QueryNode { body: QueryNodeBody::Select(Box::new(select)) }))
        .unwrap();
    let names: Vec<&str> = q.scope.items.iter().map(|c| c.column.as_str()).collect();
    assert_eq!(names, vec!["a", "b"]);
    match q.root {
        LogicalOperator::Projection { exprs, input } => {
            assert_eq!(exprs.len(), 2);
            assert!(matches!(*input, LogicalOperator::Filter { .. }));
        }
        other => panic!("unexpected plan: {other:?}"),
    }
}

#[test]
fn unsupported_statements() {
    let mut ctx = PlanContext::new(&Functions);
    let err = ctx
        .plan_statement(Statement::CreateSchema { reference: vec![ident("s")], if_not_exists: false })
        .unwrap_err();
    assert_eq!(err.kind, ErrorKind::NotImplemented);
}

#[test]
fn postgres_fields_and_query() {
    let fields = fields_from_columns(
        vec!["id".to_string(), "name".to_string()],
        &[20, 25],
    )
    .unwrap();
    assert_eq!(
        fields,
        vec![
            Field { name: "id".to_string(), datatype: DataType::Int64, nullable: true },
            Field { name: "name".to_string(), datatype: DataType::Utf8, nullable: true },
        ]
    );
    let err = fields_from_columns(vec!["p".to_string()], &[600]).unwrap_err();
    assert_eq!(err.kind, ErrorKind::Conversion);
    let catalog = PostgresCatalog::new("host=localhost".to_string());
    let table = catalog.data_table(
        &"public".to_string(),
        TableEntry { name: "users".to_string(), columns: fields },
    );
    assert_eq!(
        table.copy_query(),
        "COPY (SELECT id, name FROM public.users) TO STDOUT (FORMAT binary)"
    );
    assert_eq!(
        table.scan_sources(3),
        vec![ScanSource::Stream, ScanSource::Empty, ScanSource::Empty]
    );
    assert_eq!(table.scan_sources(0), vec![ScanSource::Stream]);
}

#[test]
fn explain_materialization_scan() {
    let scan = LogicalMaterializationScan {
        mat: MaterializationRef { materialization_idx: 12 },
        table_refs: vec![TableRef { table_idx: 3 }],
    };
    let e = scan.explain_entry(ExplainConfig { verbose: true });
    assert_eq!(e.name, "MaterializationScan");
    assert_eq!(e.items[0].1, ExplainValue::Value("#12".to_string()));
    assert_eq!(e.items[1].1, ExplainValue::Values(vec!["#3".to_string()]));
    assert_eq!(scan.get_output_table_refs(), vec![TableRef { table_idx: 3 }]);
}

#[test]
fn table_function_arguments_must_be_constants() {
    let ctx = PlanContext::new(&Functions);
    let from = FromNode {
        alias: None,
        body: FromNodeBody::TableFunction {
            reference: vec![ident("gen")],
            args: vec![FunctionArg::Unnamed { arg: Expr::Ident(ident("x")) }],
        },
    };
    let err = ctx.plan_from_node(from, Scope::empty()).unwrap_err();
    assert_eq!(err.kind, ErrorKind::InvalidArgument);
}

#[test]
fn table_function_scan_and_alias() {
    let ctx = PlanContext::new(&Functions);
    let from = FromNode {
        alias: Some(FromAlias { alias: ident("g"), columns: Some(vec![ident("x")]) }),
        body: FromNodeBody::TableFunction {
            reference: vec![ident("gen")],
            args: vec![FunctionArg::Unnamed { arg: Expr::Literal(Literal::Number("3".to_string())) }],
        },
    };
    let q = ctx.plan_from_node(from, Scope::empty()).unwrap();
    let cols: Vec<&str> = q.scope.items.iter().map(|c| c.column.as_str()).collect();
    assert_eq!(cols, vec!["x", "b"]);
    match q.root {
        LogicalOperator::Scan { source, args } => {
            assert_eq!(source.name, "gen");
            assert_eq!(args.unnamed, vec![ScalarValue::Int64(3)]);
        }
        other => panic!("unexpected plan: {other:?}"),
    }
}

#[test]
fn select_from_subquery_over_values() {
    let mut ctx = PlanContext::new(&Functions);
    let values = QueryNode {
        body: QueryNodeBody::Values(Values {
            rows: vec![vec![Expr::Literal(Literal::Number("1".to_string()))]],
        }),
    };
    let select = SelectNode {
        projections: vec![SelectExpr::Expr(Expr::CompoundIdent(vec![ident("v"), ident("column1")]))],
        from: Some(FromNode {
            alias: Some(FromAlias { alias: ident("v"), columns: None }),
            body: FromNodeBody::Subquery(Box::new(values)),
        }),
        where_expr: None,
    };
    let q = ctx.plan_select(select).unwrap();
    match q.root {
        LogicalOperator::Projection { exprs, input } => {
            assert_eq!(
                exprs,
                vec![LogicalExpression::ColumnRef(ColumnRef { scope_level: 0, item_idx: 0 })]
            );
            assert!(matches!(*input, LogicalOperator::ExpressionList { .. }));
        }
        other => panic!("unexpected plan: {other:?}"),
    }
    assert_eq!(q.scope.items[0].column, "?column?");
}

#[test]
fn select_body_over_a_plan() {
    let ctx = PlanContext::new(&Functions);
    let plan = rayexec::logical::LogicalQuery {
        root: LogicalOperator::Empty,
        scope: scope_of("t", &["a"]),
    };
    let q = ctx
        .plan_select_body(plan, None, vec![SelectExpr::AliasedExpr(Expr::Ident(ident("a")), ident("b"))])
        .unwrap();
    assert_eq!(q.scope.items[0].column, "b");
    let plan = rayexec::logical::LogicalQuery {
        root: LogicalOperator::Empty,
        scope: scope_of("t", &["a"]),
    };
    assert!(ctx.plan_select_body(plan, Some(Expr::Ident(ident("zz"))), vec![]).is_err());
}
