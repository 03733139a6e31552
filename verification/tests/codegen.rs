use otter_sql::ast::{ColumnDef, ObjectName, Query, SetExpr, SqlExpr, Statement, Values};
use otter_sql::codegen::codegen;
use otter_sql::expr::Expr;
use otter_sql::ic::Instruction;
use otter_sql::identifier::TableRef;
use otter_sql::value::Value;
use otter_sql::vm::RegisterIndex;
use sqlparser::ast::{ColumnOption, ColumnOptionDef, DataType};

fn name(parts: &[&str]) -> ObjectName {
    ObjectName {
        parts: parts.iter().map(|p| p.to_string()).collect(),
        sql: parts.join("."),
    }
}

fn int_literal(n: i64) -> SqlExpr {
    SqlExpr {
        sql: n.to_string(),
        literal: Some(Ok(Value::Int64(n))),
        lowered: Ok(Expr::Value(Value::Int64(n))),
    }
}

fn string_literal(s: &str) -> SqlExpr {
    SqlExpr {
        sql: format!("'{}'", s),
        literal: Some(Ok(Value::String(s.to_owned()))),
        lowered: Ok(Expr::Value(Value::String(s.to_owned()))),
    }
}

fn option(option: ColumnOption) -> ColumnOptionDef {
    ColumnOptionDef { name: None, option }
}

fn check_single_statement(
    statement: &Statement,
    callback: impl Fn(&[Instruction]) -> bool,
) -> Result<(), String> {
    let ic = codegen(statement).unwrap();
    if !callback(ic.instrs.as_slice()) {
        Err(format!("Instructions did not match: {:?}", ic.instrs))
    } else {
        Ok(())
    }
}

/// `INSERT INTO table1 [(columns)] VALUES (2, 'bar'), (3, 'baz')`.
fn insert_two_rows(columns: &[&str]) -> Statement {
    Statement::Insert {
        table_name: name(&["table1"]),
        columns: columns.iter().map(|c| c.to_string()).collect(),
        source: Box::new(Query {
            body: SetExpr::Values(Values {
                rows: vec![vec![int_literal(2), string_literal("bar")], vec![int_literal(3), string_literal("baz")]],
                sql: "VALUES (2, 'bar'), (3, 'baz')".to_owned(),
            }),
            limit: None,
            order_by: vec![],
            sql: "VALUES (2, 'bar'), (3, 'baz')".to_owned(),
        }),
        sql: "INSERT INTO table1 VALUES (2, 'bar'), (3, 'baz')".to_owned(),
    }
}

#[test]
fn create_schema() {
    // CREATE SCHEMA abc
    check_single_statement(
        &Statement::CreateSchema { schema_name: name(&["abc"]), if_not_exists: false },
        |instrs| match instrs {
            [Instruction::NewSchema { schema_name, exists_ok: false }] => {
                assert_eq!(schema_name.0.as_str(), "abc");
                true
            }
            _ => false,
        },
    )
    .unwrap();

    // CREATE SCHEMA IF NOT EXISTS abc
    check_single_statement(
        &Statement::CreateSchema { schema_name: name(&["abc"]), if_not_exists: true },
        |instrs| match instrs {
            [Instruction::NewSchema { schema_name, exists_ok: true }] => {
                assert_eq!(schema_name.0.as_str(), "abc");
                true
            }
            _ => false,
        },
    )
    .unwrap();
}

#[test]
fn create_table() {
    // CREATE TABLE IF NOT EXISTS table1 (
    //     col1 INTEGER PRIMARY KEY NOT NULL,
    //     col2 STRING NOT NULL,
    //     col3 INTEGER UNIQUE
    // )
    let statement = Statement::CreateTable {
        if_not_exists: true,
        name: name(&["table1"]),
        columns: vec![
            ColumnDef {
                name: "col1".to_owned(),
                data_type: DataType::Int(None),
                options: vec![
                    option(ColumnOption::Unique { is_primary: true }),
                    option(ColumnOption::NotNull),
                ],
            },
            ColumnDef {
                name: "col2".to_owned(),
                data_type: DataType::String,
                options: vec![option(ColumnOption::NotNull)],
            },
            ColumnDef {
                name: "col3".to_owned(),
                data_type: DataType::Int(None),
                options: vec![option(ColumnOption::Unique { is_primary: false })],
            },
        ],
    };
    check_single_statement(&statement, |instrs| {
        let mut index = 0;
        if let Instruction::Empty { index } = instrs[index] {
            assert_eq!(index, RegisterIndex::default());
        } else {
            panic!("Did not match: {:?}", instrs[index]);
        }
        index += 1;

        if let Instruction::ColumnDef { index, ref name, ref data_type } = instrs[index] {
            assert_eq!(index, RegisterIndex::default().next_index());
            assert_eq!(name.as_str(), "col1");
            assert_eq!(data_type, &DataType::Int(None));
        } else {
            panic!("Did not match: {:?}", instrs[index]);
        }
        index += 1;

        if let Instruction::AddColumnOption { index, ref option } = instrs[index] {
            assert_eq!(index, RegisterIndex::default().next_index());
            assert_eq!(
                option,
                &ColumnOptionDef { name: None, option: ColumnOption::Unique { is_primary: true } }
            );
        } else {
            panic!("Did not match: {:?}", instrs[index]);
        }
        index += 1;

        if let Instruction::AddColumnOption { index, ref option } = instrs[index] {
            assert_eq!(index, RegisterIndex::default().next_index());
            assert_eq!(option, &ColumnOptionDef { name: None, option: ColumnOption::NotNull });
        } else {
            panic!("Did not match: {:?}", instrs[index]);
        }
        index += 1;

        if let Instruction::AddColumn { table_reg_index, col_index } = instrs[index] {
            assert_eq!(table_reg_index, RegisterIndex::default());
            assert_eq!(col_index, RegisterIndex::default().next_index());
        } else {
            panic!("Did not match: {:?}", instrs[index]);
        }
        index += 1;

        if let Instruction::ColumnDef { index, ref name, ref data_type } = instrs[index] {
            assert_eq!(index, RegisterIndex::default().next_index());
            assert_eq!(name.as_str(), "col2");
            assert_eq!(data_type, &DataType::String);
        } else {
            panic!("Did not match: {:?}", instrs[index]);
        }
        index += 1;

        if let Instruction::AddColumnOption { index, ref option } = instrs[index] {
            assert_eq!(index, RegisterIndex::default().next_index());
            assert_eq!(option, &ColumnOptionDef { name: None, option: ColumnOption::NotNull });
        } else {
            panic!("Did not match: {:?}", instrs[index]);
        }
        index += 1;

        if let Instruction::AddColumn { table_reg_index, col_index } = instrs[index] {
            assert_eq!(table_reg_index, RegisterIndex::default());
            assert_eq!(col_index, RegisterIndex::default().next_index());
        } else {
            panic!("Did not match: {:?}", instrs[index]);
        }
        index += 1;

        if let Instruction::ColumnDef { index, ref name, ref data_type } = instrs[index] {
            assert_eq!(index, RegisterIndex::default().next_index());
            assert_eq!(name.as_str(), "col3");
            assert_eq!(data_type, &DataType::Int(None));
        } else {
            panic!("Did not match: {:?}", instrs[index]);
        }
        index += 1;

        if let Instruction::AddColumnOption { index, ref option } = instrs[index] {
            assert_eq!(index, RegisterIndex::default().next_index());
            assert_eq!(
                option,
                &ColumnOptionDef { name: None, option: ColumnOption::Unique { is_primary: false } }
            );
        } else {
            panic!("Did not match: {:?}", instrs[index]);
        }
        index += 1;

        if let Instruction::AddColumn { table_reg_index, col_index } = instrs[index] {
            assert_eq!(table_reg_index, RegisterIndex::default());
            assert_eq!(col_index, RegisterIndex::default().next_index());
        } else {
            panic!("Did not match: {:?}", instrs[index]);
        }
        index += 1;

        if let Instruction::NewTable { index, ref name, exists_ok } = instrs[index] {
            assert_eq!(index, RegisterIndex::default());
            assert_eq!(
                name,
                &TableRef { schema_name: None, table_name: "table1".into() }
            );
            assert_eq!(exists_ok, true);
        } else {
            panic!("Did not match: {:?}", instrs[index]);
        }
        index += 1;

        assert_eq!(instrs.len(), index);

        true
    })
    .unwrap();
}

fn check_insert(instrs: &[Instruction], columns: &[&str]) -> bool {
    let mut index = 0;

    if let Instruction::Source { index, ref name } = instrs[index] {
        assert_eq!(index, RegisterIndex::default());
        assert_eq!(name, &TableRef { schema_name: None, table_name: "table1".into() });
    } else {
        panic!("Did not match: {:?}", instrs[index]);
    }
    index += 1;

    if let Instruction::InsertDef { table_reg_index, index } = instrs[index] {
        assert_eq!(table_reg_index, RegisterIndex::default());
        assert_eq!(index, RegisterIndex::default().next_index());
    } else {
        panic!("Did not match: {:?}", instrs[index]);
    }
    index += 1;

    for column in columns {
        if let Instruction::ColumnInsertDef { insert_index, ref col_name } = instrs[index] {
            assert_eq!(insert_index, RegisterIndex::default().next_index());
            assert_eq!(col_name.as_str(), *column);
        } else {
            panic!("Did not match: {:?}", instrs[index]);
        }
        index += 1;
    }

    if let Instruction::RowDef { insert_index, row_index } = instrs[index] {
        assert_eq!(insert_index, RegisterIndex::default().next_index());
        assert_eq!(row_index, RegisterIndex::default().next_index().next_index());
    } else {
        panic!("Did not match: {:?}", instrs[index]);
    }
    index += 1;

    if let Instruction::AddValue { row_index, ref expr } = instrs[index] {
        assert_eq!(row_index, RegisterIndex::default().next_index().next_index());
        assert_eq!(expr, &Expr::Value(Value::Int64(2)));
    } else {
        panic!("Did not match: {:?}", instrs[index]);
    }
    index += 1;

    if let Instruction::AddValue { row_index, ref expr } = instrs[index] {
        assert_eq!(row_index, RegisterIndex::default().next_index().next_index());
        assert_eq!(expr, &Expr::Value(Value::String("bar".to_owned())));
    } else {
        panic!("Did not match: {:?}", instrs[index]);
    }
    index += 1;

    if let Instruction::RowDef { insert_index, row_index } = instrs[index] {
        assert_eq!(insert_index, RegisterIndex::default().next_index());
        assert_eq!(
            row_index,
            RegisterIndex::default().next_index().next_index().next_index()
        );
    } else {
        panic!("Did not match: {:?}", instrs[index]);
    }
    index += 1;

    if let Instruction::AddValue { row_index, ref expr } = instrs[index] {
        assert_eq!(
            row_index,
            RegisterIndex::default().next_index().next_index().next_index()
        );
        assert_eq!(expr, &Expr::Value(Value::Int64(3)));
    } else {
        panic!("Did not match: {:?}", instrs[index]);
    }
    index += 1;

    if let Instruction::AddValue { row_index, ref expr } = instrs[index] {
        assert_eq!(
            row_index,
            RegisterIndex::default().next_index().next_index().next_index()
        );
        assert_eq!(expr, &Expr::Value(Value::String("baz".to_owned())));
    } else {
        panic!("Did not match: {:?}", instrs[index]);
    }
    index += 1;

    if let Instruction::Insert { index } = instrs[index] {
        assert_eq!(index, RegisterIndex::default().next_index());
    } else {
        panic!("Did not match: {:?}", instrs[index]);
    }
    index += 1;

    assert_eq!(instrs.len(), index);

    true
}

#[test]
fn insert_values() {
    // INSERT INTO table1 VALUES (2, 'bar'), (3, 'baz')
    check_single_statement(&insert_two_rows(&[]), |instrs| check_insert(instrs, &[])).unwrap();

    // INSERT INTO table1 (col1, col2) VALUES (2, 'bar'), (3, 'baz')
    check_single_statement(&insert_two_rows(&["col1", "col2"]), |instrs| {
        check_insert(instrs, &["col1", "col2"])
    })
    .unwrap();
}
