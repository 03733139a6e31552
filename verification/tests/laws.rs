use otter_sql::ast::{
    ColumnDef, ObjectName, OrderByExpr, Query, Select, SelectItem, SetExpr, SqlExpr, Statement,
    TableFactor, TableWithJoins, Values,
};
use otter_sql::codegen::codegen;
use otter_sql::expr::Expr;
use otter_sql::ic::Instruction;
use otter_sql::value::Value;
use otter_sql::vm::RegisterIndex;
use sqlparser::ast::{ColumnOption, ColumnOptionDef, DataType};

fn name(parts: &[&str]) -> ObjectName {
    ObjectName { parts: parts.iter().map(|p| p.to_string()).collect(), sql: parts.join(".") }
}

fn column(c: &str) -> SqlExpr {
    SqlExpr { sql: c.to_owned(), literal: None, lowered: Ok(Expr::ColumnRef(c.to_owned())) }
}

fn int_literal(n: i64) -> SqlExpr {
    SqlExpr {
        sql: n.to_string(),
        literal: Some(Ok(Value::Int64(n))),
        lowered: Ok(Expr::Value(Value::Int64(n))),
    }
}

fn reads(instr: &Instruction) -> Vec<RegisterIndex> {
    match instr {
        Instruction::Empty { .. }
        | Instruction::ColumnDef { .. }
        | Instruction::NewSchema { .. }
        | Instruction::Source { .. }
        | Instruction::Expr { .. } => vec![],
        Instruction::AddColumnOption { index, .. }
        | Instruction::NewTable { index, .. }
        | Instruction::Insert { index }
        | Instruction::Filter { index, .. }
        | Instruction::GroupBy { index, .. }
        | Instruction::Limit { index, .. }
        | Instruction::Order { index, .. }
        | Instruction::Return { index } => vec![*index],
        Instruction::AddColumn { table_reg_index, col_index } => vec![*table_reg_index, *col_index],
        Instruction::InsertDef { table_reg_index, .. } => vec![*table_reg_index],
        Instruction::ColumnInsertDef { insert_index, .. } => vec![*insert_index],
        Instruction::RowDef { insert_index, .. } => vec![*insert_index],
        Instruction::AddValue { row_index, .. } => vec![*row_index],
        Instruction::Project { input, output, .. } => vec![*input, *output],
    }
}

fn writes(instr: &Instruction) -> Vec<RegisterIndex> {
    match instr {
        Instruction::Empty { index }
        | Instruction::ColumnDef { index, .. }
        | Instruction::Source { index, .. }
        | Instruction::InsertDef { index, .. }
        | Instruction::Expr { index, .. } => vec![*index],
        Instruction::RowDef { row_index, .. } => vec![*row_index],
        _ => vec![],
    }
}

fn creates(instr: &Instruction) -> Option<RegisterIndex> {
    match instr {
        Instruction::Empty { index }
        | Instruction::Source { index, .. }
        | Instruction::InsertDef { index, .. }
        | Instruction::Expr { index, .. } => Some(*index),
        Instruction::RowDef { row_index, .. } => Some(*row_index),
        _ => None,
    }
}

fn check_laws(statement: &Statement, registers: usize) {
    let code = codegen(statement).unwrap().instrs;
    let created: Vec<RegisterIndex> = code.iter().filter_map(creates).collect();
    for (i, r) in created.iter().enumerate() {
        assert!(!created[..i].contains(r), "{:?} created twice in {:?}", r, code);
    }
    let mut written: Vec<RegisterIndex> = vec![];
    for instr in &code {
        for r in reads(instr) {
            assert!(written.contains(&r), "{:?} read before written in {:?}", r, code);
            assert!(r.0 < registers);
        }
        for r in writes(instr) {
            assert!(r.0 < registers);
            written.push(r);
        }
    }
    let last = code.last().unwrap();
    match statement {
        Statement::CreateTable { .. } => {
            assert!(matches!(last, Instruction::NewTable { index: RegisterIndex(0), .. }))
        }
        Statement::Insert { .. } => assert_eq!(last, &Instruction::Insert { index: RegisterIndex(1) }),
        Statement::Query(q) => {
            let projected = matches!(&q.body, SetExpr::Select(s) if !s.projection.is_empty());
            let result = RegisterIndex(if projected { 1 } else { 0 });
            assert_eq!(last, &Instruction::Return { index: result });
        }
        Statement::CreateSchema { .. } => assert!(matches!(last, Instruction::NewSchema { .. })),
        Statement::Other { .. } => unreachable!(),
    }
}

#[test]
fn create_table_reads_registers_after_writing_them() {
    let statement = Statement::CreateTable {
        if_not_exists: false,
        name: name(&["s", "t"]),
        columns: vec![
            ColumnDef {
                name: "a".to_owned(),
                data_type: DataType::Int(None),
                options: vec![ColumnOptionDef { name: None, option: ColumnOption::NotNull }],
            },
            ColumnDef { name: "b".to_owned(), data_type: DataType::String, options: vec![] },
        ],
    };
    check_laws(&statement, 2);
}

#[test]
fn insert_reads_registers_after_writing_them() {
    let statement = Statement::Insert {
        table_name: name(&["t"]),
        columns: vec!["a".to_owned()],
        source: Box::new(Query {
            body: SetExpr::Values(Values {
                rows: vec![vec![int_literal(1)], vec![int_literal(2)], vec![int_literal(3)]],
                sql: "VALUES (1), (2), (3)".to_owned(),
            }),
            limit: None,
            order_by: vec![],
            sql: "VALUES (1), (2), (3)".to_owned(),
        }),
        sql: "INSERT INTO t (a) VALUES (1), (2), (3)".to_owned(),
    };
    // The table, the insertion, and one register per row.
    check_laws(&statement, 5);
}

#[test]
fn query_reads_registers_after_writing_them() {
    let select = Select {
        distinct: false,
        projection: vec![SelectItem::UnnamedExpr(column("a")), SelectItem::Wildcard],
        from: vec![TableWithJoins { relation: TableFactor::Table { name: name(&["t"]) }, joins: vec![] }],
        selection: Some(column("a")),
        group_by: vec![column("a")],
        having: Some(column("a")),
        sql: "SELECT a, * FROM t WHERE a GROUP BY a HAVING a".to_owned(),
    };
    let statement = Statement::Query(Box::new(Query {
        body: SetExpr::Select(Box::new(select)),
        limit: Some(int_literal(3)),
        order_by: vec![OrderByExpr { expr: column("a"), asc: Some(true) }],
        sql: "SELECT a, * FROM t WHERE a GROUP BY a HAVING a ORDER BY a LIMIT 3".to_owned(),
    }));
    check_laws(&statement, 2);
}

#[test]
fn query_without_projection_returns_its_table() {
    let select = Select {
        distinct: false,
        projection: vec![],
        from: vec![TableWithJoins { relation: TableFactor::Table { name: name(&["t"]) }, joins: vec![] }],
        selection: None,
        group_by: vec![],
        having: None,
        sql: "SELECT FROM t".to_owned(),
    };
    let statement = Statement::Query(Box::new(Query {
        body: SetExpr::Select(Box::new(select)),
        limit: Some(int_literal(1)),
        order_by: vec![],
        sql: "SELECT FROM t LIMIT 1".to_owned(),
    }));
    check_laws(&statement, 2);
}

#[test]
fn create_schema_ends_with_new_schema() {
    check_laws(&Statement::CreateSchema { schema_name: name(&["s"]), if_not_exists: true }, 2);
}
