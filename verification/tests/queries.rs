use otter_sql::ast::{
    Join, ObjectName, OrderByExpr, Query, Select, SelectItem, SetExpr, SqlExpr, Statement,
    TableFactor, TableWithJoins, Values,
};
use otter_sql::codegen::codegen;
use otter_sql::expr::Expr;
use otter_sql::ic::Instruction;
use otter_sql::identifier::TableRef;
use otter_sql::value::Value;
use otter_sql::vm::RegisterIndex;

fn name(parts: &[&str]) -> ObjectName {
    ObjectName { parts: parts.iter().map(|p| p.to_string()).collect(), sql: parts.join(".") }
}

fn column(c: &str) -> SqlExpr {
    SqlExpr { sql: c.to_owned(), literal: None, lowered: Ok(Expr::ColumnRef(c.to_owned())) }
}

fn int_literal(n: i64) -> SqlExpr {
    SqlExpr {
        sql: n.to_string(),
        literal: Some(Ok(Value::Int64(n))),
        lowered: Ok(Expr::Value(Value::Int64(n))),
    }
}

fn select_from(table: &[&str], projection: Vec<SelectItem>) -> Select {
    Select {
        distinct: false,
        projection,
        from: vec![TableWithJoins {
            relation: TableFactor::Table { name: name(table) },
            joins: vec![],
        }],
        selection: None,
        group_by: vec![],
        having: None,
        sql: "SELECT ...".to_owned(),
    }
}

fn query(body: SetExpr, limit: Option<SqlExpr>, order_by: Vec<OrderByExpr>) -> Statement {
    Statement::Query(Box::new(Query { body, limit, order_by, sql: "SELECT ...".to_owned() }))
}

fn r(n: usize) -> RegisterIndex {
    RegisterIndex(n)
}

#[test]
fn select_with_every_clause() {
    // SELECT col1, col2 AS c FROM s.t WHERE col1 GROUP BY col2 HAVING col2
    // ORDER BY col1 DESC LIMIT 10
    let mut select = select_from(
        &["s", "t"],
        vec![
            SelectItem::UnnamedExpr(column("col1")),
            SelectItem::ExprWithAlias { expr: column("col2"), alias: "c".to_owned() },
        ],
    );
    select.selection = Some(column("col1"));
    select.group_by = vec![column("col2")];
    select.having = Some(column("col2"));
    let statement = query(
        SetExpr::Select(Box::new(select)),
        Some(int_literal(10)),
        vec![OrderByExpr { expr: column("col1"), asc: Some(false) }],
    );
    let ic = codegen(&statement).unwrap();
    let col = |c: &str| Expr::ColumnRef(c.to_owned());
    assert_eq!(
        ic.instrs,
        vec![
            Instruction::Source {
                index: r(0),
                name: TableRef { schema_name: Some("s".to_owned()), table_name: "t".to_owned() },
            },
            Instruction::Filter { index: r(0), expr: col("col1") },
            Instruction::GroupBy { index: r(0), expr: col("col2") },
            Instruction::Filter { index: r(0), expr: col("col2") },
            Instruction::Empty { index: r(1) },
            Instruction::Project { input: r(0), output: r(1), expr: col("col1"), alias: None },
            Instruction::Project {
                input: r(0),
                output: r(1),
                expr: col("col2"),
                alias: Some("c".to_owned()),
            },
            Instruction::Limit { index: r(1), limit: 10 },
            Instruction::Order { index: r(1), expr: col("col1"), ascending: false },
            Instruction::Return { index: r(1) },
        ]
    );
}

#[test]
fn select_wildcard() {
    // SELECT * FROM t ORDER BY col1
    let statement = query(
        SetExpr::Select(Box::new(select_from(&["t"], vec![SelectItem::Wildcard]))),
        None,
        vec![OrderByExpr { expr: column("col1"), asc: None }],
    );
    let ic = codegen(&statement).unwrap();
    assert_eq!(
        ic.instrs,
        vec![
            Instruction::Source {
                index: r(0),
                name: TableRef { schema_name: None, table_name: "t".to_owned() },
            },
            Instruction::Empty { index: r(1) },
            Instruction::Project { input: r(0), output: r(1), expr: Expr::Wildcard, alias: None },
            Instruction::Order { index: r(1), expr: Expr::ColumnRef("col1".to_owned()), ascending: true },
            Instruction::Return { index: r(1) },
        ]
    );
}

#[test]
fn select_star_returns_the_projection() {
    // SELECT * FROM table1
    let statement = query(
        SetExpr::Select(Box::new(select_from(&["table1"], vec![SelectItem::Wildcard]))),
        None,
        vec![],
    );
    let ic = codegen(&statement).unwrap();
    assert_eq!(
        ic.instrs,
        vec![
            Instruction::Source {
                index: r(0),
                name: TableRef { schema_name: None, table_name: "table1".to_owned() },
            },
            Instruction::Empty { index: r(1) },
            Instruction::Project { input: r(0), output: r(1), expr: Expr::Wildcard, alias: None },
            Instruction::Return { index: r(1) },
        ]
    );
}

#[test]
fn select_without_projection() {
    let statement = query(SetExpr::Select(Box::new(select_from(&["t"], vec![]))), None, vec![]);
    let ic = codegen(&statement).unwrap();
    assert_eq!(
        ic.instrs,
        vec![
            Instruction::Source {
                index: r(0),
                name: TableRef { schema_name: None, table_name: "t".to_owned() },
            },
            Instruction::Return { index: r(0) },
        ]
    );
}

#[test]
fn select_single_value() {
    // SELECT 1
    let statement = query(
        SetExpr::Values(Values { rows: vec![vec![int_literal(1)]], sql: "VALUES (1)".to_owned() }),
        None,
        vec![],
    );
    let ic = codegen(&statement).unwrap();
    assert_eq!(
        ic.instrs,
        vec![
            Instruction::Expr { index: r(0), expr: Expr::Value(Value::Int64(1)) },
            Instruction::Return { index: r(0) },
        ]
    );
}

#[test]
fn negative_limit_wraps_to_unsigned() {
    // SELECT 1 LIMIT -1
    let statement = query(
        SetExpr::Values(Values { rows: vec![vec![int_literal(1)]], sql: "VALUES (1)".to_owned() }),
        Some(int_literal(-1)),
        vec![],
    );
    let ic = codegen(&statement).unwrap();
    assert_eq!(ic.instrs[1], Instruction::Limit { index: r(0), limit: u64::MAX });
}

#[test]
fn join_with_no_joins_listed_is_read() {
    // A FROM item with an empty list of joins reads its table.
    let mut select = select_from(&["t"], vec![]);
    select.from[0].joins = vec![];
    let statement = query(SetExpr::Select(Box::new(select)), None, vec![]);
    assert!(codegen(&statement).is_ok());
    let mut select = select_from(&["t"], vec![]);
    select.from[0].joins = vec![Join { sql: "JOIN u".to_owned() }];
    let statement = query(SetExpr::Select(Box::new(select)), None, vec![]);
    assert!(codegen(&statement).is_err());
}
