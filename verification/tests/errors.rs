use otter_sql::ast::{
    Join, ObjectName, Query, Select, SelectItem, SetExpr, SqlExpr, Statement, TableFactor,
    TableWithJoins, Values,
};
use otter_sql::codegen::{codegen, CodegenError};
use otter_sql::expr::{Expr, ExprError};
use otter_sql::identifier::IdentifierError;
use otter_sql::value::{Value, ValueError};

fn name(parts: &[&str]) -> ObjectName {
    ObjectName { parts: parts.iter().map(|p| p.to_string()).collect(), sql: parts.join(".") }
}

fn column(c: &str) -> SqlExpr {
    SqlExpr { sql: c.to_owned(), literal: None, lowered: Ok(Expr::ColumnRef(c.to_owned())) }
}

fn int_literal(n: i64) -> SqlExpr {
    SqlExpr {
        sql: n.to_string(),
        literal: Some(Ok(Value::Int64(n))),
        lowered: Ok(Expr::Value(Value::Int64(n))),
    }
}

fn refused_expr(sql: &str) -> SqlExpr {
    SqlExpr {
        sql: sql.to_owned(),
        literal: None,
        lowered: Err(ExprError::Expr { reason: "Unsupported expression", expr: sql.to_owned() }),
    }
}

fn select_from(relation: TableFactor) -> Select {
    Select {
        distinct: false,
        projection: vec![],
        from: vec![TableWithJoins { relation, joins: vec![] }],
        selection: None,
        group_by: vec![],
        having: None,
        sql: "SELECT * FROM t".to_owned(),
    }
}

fn table(parts: &[&str]) -> TableFactor {
    TableFactor::Table { name: name(parts) }
}

fn query_of(body: SetExpr, limit: Option<SqlExpr>) -> Statement {
    Statement::Query(Box::new(Query { body, limit, order_by: vec![], sql: "the query".to_owned() }))
}

fn select_query(select: Select) -> Statement {
    query_of(SetExpr::Select(Box::new(select)), None)
}

fn form(reason: &'static str, sql: &str) -> CodegenError {
    CodegenError::UnsupportedStatementForm(reason, sql.to_owned())
}

#[test]
fn other_statements_are_unsupported() {
    let err = codegen(&Statement::Other { sql: "DROP TABLE t".to_owned() }).unwrap_err();
    assert_eq!(err, CodegenError::UnsupportedStatement("DROP TABLE t".to_owned()));
    assert_eq!(err.message(), "Unsupported statement: DROP TABLE t");
}

#[test]
fn unsupported_from_clauses() {
    let mut two_tables = select_from(table(&["t"]));
    two_tables.from.push(TableWithJoins { relation: table(&["u"]), joins: vec![] });
    assert_eq!(
        codegen(&select_query(two_tables)).unwrap_err(),
        form("Only select from a single table is supported for now", "SELECT * FROM t")
    );

    let mut no_table = select_from(table(&["t"]));
    no_table.from.clear();
    assert_eq!(
        codegen(&select_query(no_table)).unwrap_err(),
        form("Only select from a single table is supported for now", "SELECT * FROM t")
    );

    let mut joined = select_from(table(&["t"]));
    joined.from[0].joins.push(Join { sql: "JOIN u ON t.a = u.a".to_owned() });
    assert_eq!(
        codegen(&select_query(joined)).unwrap_err(),
        form("Joins are not supported yet", "SELECT * FROM t")
    );

    let cases = vec![
        (TableFactor::Derived { sql: "(SELECT 1)".to_owned() }, "Derived tables are not supportd yet"),
        (TableFactor::NestedJoin { sql: "(a JOIN b)".to_owned() }, "Nested JOINs are not supportd yet"),
        (TableFactor::TableFunction { sql: "TABLE(f())".to_owned() }, "Table functions are not supportd yet"),
        (TableFactor::Unnest { sql: "UNNEST(a)".to_owned() }, "UNNEST are not supportd yet"),
    ];
    for (relation, reason) in cases {
        let sql = match &relation {
            TableFactor::Derived { sql }
            | TableFactor::NestedJoin { sql }
            | TableFactor::TableFunction { sql }
            | TableFactor::Unnest { sql } => sql.clone(),
            TableFactor::Table { .. } => unreachable!(),
        };
        assert_eq!(codegen(&select_query(select_from(relation))).unwrap_err(), form(reason, &sql));
    }
}

#[test]
fn unsupported_projections() {
    let mut qualified = select_from(table(&["t"]));
    qualified.projection = vec![SelectItem::Wildcard, SelectItem::QualifiedWildcard(name(&["t"]))];
    assert_eq!(
        codegen(&select_query(qualified)).unwrap_err(),
        form("Qualified wildcards are not supported yet", "t")
    );

    let mut distinct = select_from(table(&["t"]));
    distinct.distinct = true;
    distinct.projection = vec![SelectItem::Wildcard];
    let err = codegen(&select_query(distinct)).unwrap_err();
    assert_eq!(err, form("DISTINCT is not supported yet", "SELECT * FROM t"));
    assert_eq!(err.message(), "Unsupported: DISTINCT is not supported yet (Got: 'SELECT * FROM t')");

    // Without a projection, DISTINCT is not looked at.
    let mut distinct_without_projection = select_from(table(&["t"]));
    distinct_without_projection.distinct = true;
    assert!(codegen(&select_query(distinct_without_projection)).is_ok());
}

#[test]
fn unsupported_query_bodies() {
    let two_values = Values {
        rows: vec![vec![int_literal(1), int_literal(2)]],
        sql: "VALUES (1, 2)".to_owned(),
    };
    assert_eq!(
        codegen(&query_of(SetExpr::Values(two_values), None)).unwrap_err(),
        form("Selecting more than one value is not supported yet", "VALUES (1, 2)")
    );
    let two_rows = Values {
        rows: vec![vec![int_literal(1)], vec![int_literal(2)]],
        sql: "VALUES (1), (2)".to_owned(),
    };
    assert_eq!(
        codegen(&query_of(SetExpr::Values(two_rows), None)).unwrap_err(),
        form("Selecting more than one value is not supported yet", "VALUES (1), (2)")
    );
    assert_eq!(
        codegen(&query_of(SetExpr::Query { sql: "(SELECT 1)".to_owned() }, None)).unwrap_err(),
        form("Query within a query not supported yet", "(SELECT 1)")
    );
    assert_eq!(
        codegen(&query_of(SetExpr::SetOperation, None)).unwrap_err(),
        form("Set operations are not supported yet", "the query")
    );
    assert_eq!(
        codegen(&query_of(SetExpr::Insert { sql: "INSERT INTO t VALUES (1)".to_owned() }, None))
            .unwrap_err(),
        form("Insert within query not supported yet", "INSERT INTO t VALUES (1)")
    );
}

#[test]
fn limits_must_be_integer_literals() {
    let one = || SetExpr::Values(Values { rows: vec![vec![int_literal(1)]], sql: "VALUES (1)".to_owned() });

    let err = codegen(&query_of(one(), Some(column("n")))).unwrap_err();
    assert_eq!(
        err,
        CodegenError::Expr(ExprError::Expr {
            reason: "Only constant integer LIMITs are supported",
            expr: "n".to_owned(),
        })
    );
    assert_eq!(err.message(), "Only constant integer LIMITs are supported (Got: 'n')");

    let text = SqlExpr {
        sql: "'ten'".to_owned(),
        literal: Some(Ok(Value::String("ten".to_owned()))),
        lowered: Ok(Expr::Value(Value::String("ten".to_owned()))),
    };
    assert_eq!(
        codegen(&query_of(one(), Some(text))).unwrap_err(),
        CodegenError::Expr(ExprError::Value(ValueError {
            reason: "Only constant integer LIMITs are supported",
            value: "'ten'".to_owned(),
        }))
    );

    let refused = ValueError { reason: "Number out of range", value: "99999999999999999999".to_owned() };
    let huge = SqlExpr {
        sql: "99999999999999999999".to_owned(),
        literal: Some(Err(refused.clone())),
        lowered: Err(ExprError::Value(refused.clone())),
    };
    assert_eq!(
        codegen(&query_of(one(), Some(huge))).unwrap_err(),
        CodegenError::Expr(ExprError::Value(refused))
    );
}

#[test]
fn invalid_identifiers() {
    let err = codegen(&select_query(select_from(table(&["a", "b", "c"])))).unwrap_err();
    assert_eq!(
        err,
        CodegenError::InvalidIdentifier(IdentifierError {
            reason: "A table name has one part or two (schema and table)",
            name: "a.b.c".to_owned(),
        })
    );
    assert_eq!(
        err.message(),
        "A table name has one part or two (schema and table) (Got: 'a.b.c')"
    );

    let err = codegen(&Statement::CreateSchema { schema_name: name(&["a", "b"]), if_not_exists: false })
        .unwrap_err();
    assert_eq!(
        err,
        CodegenError::InvalidIdentifier(IdentifierError {
            reason: "A schema name has exactly one part",
            name: "a.b".to_owned(),
        })
    );

    let err = codegen(&Statement::CreateTable { if_not_exists: false, name: name(&[]), columns: vec![] })
        .unwrap_err();
    assert!(matches!(err, CodegenError::InvalidIdentifier(_)));
}

#[test]
fn refused_expressions_stop_generation() {
    let mut select = select_from(table(&["t"]));
    select.selection = Some(refused_expr("f(x)"));
    let err = codegen(&select_query(select)).unwrap_err();
    assert_eq!(
        err,
        CodegenError::Expr(ExprError::Expr { reason: "Unsupported expression", expr: "f(x)".to_owned() })
    );
    assert_eq!(err.message(), "Unsupported expression (Got: 'f(x)')");

    // The first refused part, in the order of the statement, is reported.
    let mut select = select_from(table(&["t"]));
    select.group_by = vec![column("a"), refused_expr("g(a)"), refused_expr("h(a)")];
    select.projection = vec![SelectItem::QualifiedWildcard(name(&["t"]))];
    assert_eq!(
        codegen(&select_query(select)).unwrap_err(),
        CodegenError::Expr(ExprError::Expr { reason: "Unsupported expression", expr: "g(a)".to_owned() })
    );
}

#[test]
fn insert_errors() {
    let values_query = |rows: Vec<Vec<SqlExpr>>| {
        Box::new(Query {
            body: SetExpr::Values(Values { rows, sql: "VALUES ...".to_owned() }),
            limit: None,
            order_by: vec![],
            sql: "VALUES ...".to_owned(),
        })
    };
    let from_select = Box::new(Query {
        body: SetExpr::Select(Box::new(select_from(table(&["u"])))),
        limit: None,
        order_by: vec![],
        sql: "SELECT * FROM u".to_owned(),
    });
    assert_eq!(
        codegen(&Statement::Insert {
            table_name: name(&["t"]),
            columns: vec![],
            source: from_select,
            sql: "INSERT INTO t SELECT * FROM u".to_owned(),
        })
        .unwrap_err(),
        form("Only insert with values is supported.", "INSERT INTO t SELECT * FROM u")
    );

    // The table name is resolved before the source is looked at.
    let from_select = Box::new(Query {
        body: SetExpr::SetOperation,
        limit: None,
        order_by: vec![],
        sql: "SELECT 1 UNION SELECT 2".to_owned(),
    });
    assert!(matches!(
        codegen(&Statement::Insert {
            table_name: name(&["a", "b", "c"]),
            columns: vec![],
            source: from_select,
            sql: "INSERT INTO a.b.c SELECT 1 UNION SELECT 2".to_owned(),
        }),
        Err(CodegenError::InvalidIdentifier(_))
    ));

    assert_eq!(
        codegen(&Statement::Insert {
            table_name: name(&["t"]),
            columns: vec![],
            source: values_query(vec![vec![int_literal(1)], vec![refused_expr("x + ")]]),
            sql: "INSERT INTO t VALUES (1), (x + )".to_owned(),
        })
        .unwrap_err(),
        CodegenError::Expr(ExprError::Expr { reason: "Unsupported expression", expr: "x + ".to_owned() })
    );
}

#[test]
fn errors_convert_into_codegen_errors() {
    let v = ValueError { reason: "r", value: "v".to_owned() };
    assert_eq!(CodegenError::from(v.clone()), CodegenError::Expr(ExprError::Value(v.clone())));
    assert_eq!(ExprError::from(v.clone()), ExprError::Value(v));
    let i = || IdentifierError { reason: "r", name: "n".to_owned() };
    assert_eq!(CodegenError::from(i()), CodegenError::InvalidIdentifier(i()));
    let e = || ExprError::Expr { reason: "r", expr: "e".to_owned() };
    assert_eq!(CodegenError::from(e()), CodegenError::Expr(e()));
}
