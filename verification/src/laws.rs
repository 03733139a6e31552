//! What holds of all generated code.

use vstd::prelude::*;

use crate::ast::{ColumnDef, Query, Select, SetExpr, SqlExpr, Statement};
use crate::codegen::{
    body_code, column_code, columns_code, create_schema_code, create_table_code, filter_code,
    from_code, group_by_step, lemma_run_steps_take_next, group_by_steps, insert_code, insert_head, limit_code,
    order_step, order_steps, project_step, result_reg, project_steps, projection_code, query_code, reg,
    row_code, rows_steps, run_steps, select_code, statement_code, add_value_step,
    add_value_steps, CodeOutcome,
};
use crate::ic::{
    creates_distinct_registers, reads_after_writes, registers_below, registers_written_before_read, written_by, Instruction,
};
use crate::vm::RegisterIndex;

verus! {

// ----------------------------------------------------------------------------
// Reading registers only after writing them, over concatenation.
// ----------------------------------------------------------------------------

/// `a` then `b` reads registers only after writing them, when `b` is given
/// what `ready` and `a` provide.
pub proof fn lemma_reads_after_writes_concat(
    ready: Set<RegisterIndex>,
    a: Seq<Instruction>,
    ready_b: Set<RegisterIndex>,
    b: Seq<Instruction>,
)
    requires
        reads_after_writes(ready, a),
        reads_after_writes(ready_b, b),
        forall|r: RegisterIndex| #[trigger] ready_b.contains(r) ==> ready.contains(r) || written_by(a, r),
    ensures
        reads_after_writes(ready, a + b),
{
    let c = a + b;
    assert forall|i: int, r: RegisterIndex|
        0 <= i < c.len() && #[trigger] c[i].reads(r) implies ready.contains(r) || written_by(
        c.take(i),
        r,
    ) by {
        if i < a.len() {
            assert(c[i] == a[i]);
            assert(c.take(i) =~= a.take(i));
        } else {
            let k = i - a.len();
            assert(c[i] == b[k]);
            assert(b[k].reads(r));
            if !ready.contains(r) {
                if written_by(a, r) {
                    let j = choose|j: int| 0 <= j < a.len() && #[trigger] a[j].writes(r);
                    assert(c.take(i)[j] == a[j]);
                    assert(c.take(i)[j].writes(r));
                } else {
                    assert(written_by(b.take(k), r));
                    let j = choose|j: int| 0 <= j < b.take(k).len() && #[trigger] b.take(k)[j].writes(r);
                    assert(c.take(i)[a.len() + j] == b[j]);
                    assert(c.take(i)[a.len() + j].writes(r));
                }
            }
        }
    }
}

/// A register that a part of `a` writes, `a` writes.
pub proof fn lemma_written_by_concat(a: Seq<Instruction>, b: Seq<Instruction>, r: RegisterIndex)
    ensures
        written_by(a, r) ==> written_by(a + b, r),
        written_by(b, r) ==> written_by(a + b, r),
{
    if written_by(a, r) {
        let j = choose|j: int| 0 <= j < a.len() && #[trigger] a[j].writes(r);
        assert((a + b)[j] == a[j]);
    }
    if written_by(b, r) {
        let j = choose|j: int| 0 <= j < b.len() && #[trigger] b[j].writes(r);
        assert((a + b)[a.len() + j] == b[j]);
    }
}

/// Whether every instruction that a successful step gives satisfies `ok`.
pub open spec fn steps_satisfy(steps: Seq<CodeOutcome>, ok: spec_fn(Seq<Instruction>) -> bool) -> bool {
    forall|k: int| 0 <= k < steps.len() ==> (#[trigger] steps[k] matches Ok(c) ==> ok(c))
}

/// Running steps whose code reads registers only after they are written, in
/// `ready` or by earlier code of the step, gives such code.
pub proof fn lemma_run_steps_reads_after_writes(ready: Set<RegisterIndex>, steps: Seq<CodeOutcome>)
    requires
        steps_satisfy(steps, |c: Seq<Instruction>| reads_after_writes(ready, c)),
    ensures
        run_steps(steps) matches Ok(code) ==> reads_after_writes(ready, code),
    decreases steps.len(),
{
    if steps.len() > 0 {
        let init = steps.drop_last();
        assert forall|k: int| 0 <= k < init.len() implies (#[trigger] init[k] matches Ok(c)
            ==> reads_after_writes(ready, c)) by {
            assert(init[k] == steps[k]);
        }
        lemma_run_steps_reads_after_writes(ready, init);
        if let Ok(code) = run_steps(steps) {
            let a = run_steps(init)->Ok_0;
            let b = steps.last()->Ok_0;
            assert(steps[steps.len() - 1] == steps.last());
            lemma_reads_after_writes_concat(ready, a, ready, b);
        }
    }
}

// CREATE TABLE ---------------------------------------------------------------

proof fn lemma_column_code(col: ColumnDef)
    ensures
        reads_after_writes(set![reg(0)], column_code(col)),
{
    let code = column_code(col);
    let n = col.options@.len();
    assert(code.len() == n + 2);
    assert forall|i: int, r: RegisterIndex|
        0 <= i < code.len() && #[trigger] code[i].reads(r) implies set![reg(0)].contains(r)
        || written_by(code.take(i), r) by {
        assert(code[0] == Instruction::ColumnDef { index: reg(1), name: col.name, data_type: col.data_type });
        if 0 < i {
            assert(code.take(i)[0] == code[0]);
            assert(code.take(i)[0].writes(reg(1)));
            if i <= n {
                assert(code[i] == Instruction::AddColumnOption { index: reg(1), option: col.options@[i - 1] });
                assert(r == reg(1));
            } else {
                assert(code[i] == Instruction::AddColumn { table_reg_index: reg(0), col_index: reg(1) });
            }
        }
    }
}

proof fn lemma_columns_code(cols: Seq<ColumnDef>)
    ensures
        reads_after_writes(set![reg(0)], columns_code(cols)),
    decreases cols.len(),
{
    if cols.len() > 0 {
        lemma_columns_code(cols.drop_last());
        lemma_column_code(cols.last());
        lemma_reads_after_writes_concat(
            set![reg(0)],
            columns_code(cols.drop_last()),
            set![reg(0)],
            column_code(cols.last()),
        );
    }
}

/// The code of a successful `CREATE TABLE` reads registers only after writing them.
proof fn lemma_create_table_code(if_not_exists: bool, name: crate::ast::ObjectName, cols: Seq<ColumnDef>)
    ensures
        create_table_code(if_not_exists, name, cols) matches Ok(code) ==> registers_written_before_read(code),
{
    if let Ok(code) = create_table_code(if_not_exists, name, cols) {
        let head = seq![Instruction::Empty { index: reg(0) }];
        let body = columns_code(cols);
        let tail = code.subrange((head.len() + body.len()) as int, code.len() as int);
        assert(code =~= head + body + tail);
        assert(head[0].writes(reg(0)));
        lemma_columns_code(cols);
        lemma_reads_after_writes_concat(Set::empty(), head, set![reg(0)], body);
        lemma_written_by_concat(head, body, reg(0));
        lemma_reads_after_writes_concat(Set::empty(), head + body, set![reg(0)], tail);
    }
}

// INSERT ---------------------------------------------------------------------

proof fn lemma_insert_head(t: crate::identifier::TableRef, columns: Seq<String>)
    ensures
        registers_written_before_read(insert_head(t, columns)),
        written_by(insert_head(t, columns), reg(1)),
{
    let code = insert_head(t, columns);
    assert(code[1] == Instruction::InsertDef { table_reg_index: reg(0), index: reg(1) });
    assert(code[1].writes(reg(1)));
    assert forall|i: int, r: RegisterIndex|
        0 <= i < code.len() && #[trigger] code[i].reads(r) implies Set::<RegisterIndex>::empty().contains(r)
        || written_by(code.take(i), r) by {
        if i == 1 {
            assert(code.take(i)[0] == Instruction::Source { index: reg(0), name: t });
            assert(code.take(i)[0].writes(reg(0)));
        } else if i > 1 {
            assert(code[i] == Instruction::ColumnInsertDef { insert_index: reg(1), col_name: columns[i - 2] });
            assert(code.take(i)[1] == code[1]);
            assert(code.take(i)[1].writes(reg(1)));
        }
    }
}

proof fn lemma_row_code(row_reg: RegisterIndex, row: Seq<SqlExpr>)
    ensures
        row_code(row_reg, row) matches Ok(code) ==> reads_after_writes(set![reg(1)], code),
{
    let steps = add_value_steps(row_reg, row);
    assert forall|k: int| 0 <= k < steps.len() implies (#[trigger] steps[k] matches Ok(c)
        ==> reads_after_writes(set![row_reg], c)) by {
        assert(steps[k] == add_value_step(row_reg, row[k]));
    }
    lemma_run_steps_reads_after_writes(set![row_reg], steps);
    if let Ok(code) = row_code(row_reg, row) {
        let head = seq![Instruction::RowDef { insert_index: reg(1), row_index: row_reg }];
        let rest = run_steps(steps)->Ok_0;
        assert(head[0].writes(row_reg));
        lemma_reads_after_writes_concat(set![reg(1)], head, set![row_reg], rest);
    }
}

proof fn lemma_rows_code(rows: Seq<Vec<SqlExpr>>)
    ensures
        run_steps(rows_steps(rows)) matches Ok(code) ==> reads_after_writes(set![reg(1)], code),
{
    let steps = rows_steps(rows);
    assert forall|k: int| 0 <= k < steps.len() implies (#[trigger] steps[k] matches Ok(c)
        ==> reads_after_writes(set![reg(1)], c)) by {
        lemma_row_code(reg((k + 2) as nat), rows[k]@);
    }
    lemma_run_steps_reads_after_writes(set![reg(1)], steps);
}

proof fn lemma_insert_code(
    name: crate::ast::ObjectName,
    columns: Seq<String>,
    source: Query,
    sql: String,
)
    ensures
        insert_code(name, columns, source, sql) matches Ok(code) ==> registers_written_before_read(code),
{
    if let Ok(code) = insert_code(name, columns, source, sql) {
        let t = crate::codegen::table_name(name)->Ok_0;
        if let SetExpr::Values(values) = source.body {
            let head = insert_head(t, columns);
            let rows = run_steps(rows_steps(values.rows@))->Ok_0;
            let tail = seq![Instruction::Insert { index: reg(1) }];
            assert(code == head + rows + tail);
            lemma_insert_head(t, columns);
            lemma_rows_code(values.rows@);
            lemma_reads_after_writes_concat(Set::empty(), head, set![reg(1)], rows);
            lemma_written_by_concat(head, rows, reg(1));
            lemma_reads_after_writes_concat(Set::empty(), head + rows, set![reg(1)], tail);
        }
    }
}

// Queries --------------------------------------------------------------------

/// Code that writes register `k` and reads registers only after writing them,
/// extended by code that needs only register `k`.
proof fn lemma_extend_after_table(k: RegisterIndex, a: Seq<Instruction>, b: Seq<Instruction>)
    requires
        registers_written_before_read(a),
        written_by(a, k),
        reads_after_writes(set![k], b),
    ensures
        registers_written_before_read(a + b),
        written_by(a + b, k),
{
    lemma_reads_after_writes_concat(Set::empty(), a, set![k], b);
    lemma_written_by_concat(a, b, k);
}

proof fn lemma_filter_code(e: Option<SqlExpr>)
    ensures
        filter_code(e) matches Ok(code) ==> reads_after_writes(set![reg(0)], code),
{
}

proof fn lemma_group_by_code(exprs: Seq<SqlExpr>)
    ensures
        run_steps(group_by_steps(exprs)) matches Ok(code) ==> reads_after_writes(set![reg(0)], code),
{
    let steps = group_by_steps(exprs);
    assert forall|k: int| 0 <= k < steps.len() implies (#[trigger] steps[k] matches Ok(c)
        ==> reads_after_writes(set![reg(0)], c)) by {
        assert(steps[k] == group_by_step(exprs[k]));
    }
    lemma_run_steps_reads_after_writes(set![reg(0)], steps);
}

proof fn lemma_projection_code(s: Select)
    ensures
        projection_code(s) matches Ok(code) ==> reads_after_writes(set![reg(0)], code) && (
        s.projection@.len() != 0 ==> written_by(code, reg(1))),
{
    let steps = project_steps(s.projection@);
    assert forall|k: int| 0 <= k < steps.len() implies (#[trigger] steps[k] matches Ok(c)
        ==> reads_after_writes(set![reg(0), reg(1)], c)) by {
        assert(steps[k] == project_step(s.projection@[k]));
    }
    lemma_run_steps_reads_after_writes(set![reg(0), reg(1)], steps);
    if let Ok(code) = projection_code(s) {
        if s.projection@.len() != 0 {
            let head = seq![Instruction::Empty { index: reg(1) }];
            let items = run_steps(steps)->Ok_0;
            assert(head[0].writes(reg(1)));
            lemma_reads_after_writes_concat(set![reg(0)], head, set![reg(0), reg(1)], items);
            lemma_written_by_concat(head, items, reg(1));
            assert(code =~= head + items);
        }
    }
}

proof fn lemma_select_code(s: Select)
    ensures
        select_code(s) matches Ok(code) ==> registers_written_before_read(code) && written_by(code, reg(0))
            && (s.projection@.len() != 0 ==> written_by(code, reg(1))),
{
    if let Ok(code) = select_code(s) {
        let from = from_code(s)->Ok_0;
        let selection = filter_code(s.selection)->Ok_0;
        let group_by = run_steps(group_by_steps(s.group_by@))->Ok_0;
        let having = filter_code(s.having)->Ok_0;
        let projection = projection_code(s)->Ok_0;
        assert(from[0].writes(reg(0)));
        assert(registers_written_before_read(from));
        lemma_filter_code(s.selection);
        lemma_extend_after_table(reg(0), from, selection);
        lemma_group_by_code(s.group_by@);
        lemma_extend_after_table(reg(0), from + selection, group_by);
        lemma_filter_code(s.having);
        lemma_extend_after_table(reg(0), from + selection + group_by, having);
        lemma_projection_code(s);
        lemma_extend_after_table(reg(0), from + selection + group_by + having, projection);
        lemma_written_by_concat(from + selection + group_by + having, projection, reg(1));
    }
}

proof fn lemma_body_code(q: Query)
    ensures
        body_code(q) matches Ok(code) ==> registers_written_before_read(code) && written_by(
            code,
            result_reg(q),
        ),
{
    if let Ok(code) = body_code(q) {
        match q.body {
            SetExpr::Select(s) => lemma_select_code(*s),
            _ => {
                assert(code[0].writes(reg(0)));
            },
        }
    }
}

proof fn lemma_query_code(q: Query)
    ensures
        query_code(q) matches Ok(code) ==> registers_written_before_read(code),
{
    if let Ok(code) = query_code(q) {
        let body = body_code(q)->Ok_0;
        let out = result_reg(q);
        let limit = limit_code(out, q.limit)->Ok_0;
        let order_steps = order_steps(out, q.order_by@);
        let order_by = run_steps(order_steps)->Ok_0;
        let tail = seq![Instruction::Return { index: out }];
        lemma_body_code(q);
        lemma_extend_after_table(out, body, limit);
        assert forall|k: int| 0 <= k < order_steps.len() implies (#[trigger] order_steps[k] matches Ok(c)
            ==> reads_after_writes(set![out], c)) by {
            assert(order_steps[k] == order_step(out, q.order_by@[k]));
        }
        lemma_run_steps_reads_after_writes(set![out], order_steps);
        lemma_extend_after_table(out, body + limit, order_by);
        lemma_extend_after_table(out, body + limit + order_by, tail);
    }
}

// ----------------------------------------------------------------------------
// Laws.
// ----------------------------------------------------------------------------

/// Generated code reads a register only after an earlier instruction has
/// written it.
pub proof fn law_registers_written_before_read(ast: Statement)
    ensures
        statement_code(ast) matches Ok(code) ==> registers_written_before_read(code),
{
    match ast {
        Statement::CreateTable { if_not_exists, name, columns } => lemma_create_table_code(
            if_not_exists,
            name,
            columns@,
        ),
        Statement::Insert { table_name, columns, source, sql } => lemma_insert_code(
            table_name,
            columns@,
            *source,
            sql,
        ),
        Statement::Query(q) => lemma_query_code(*q),
        Statement::CreateSchema { schema_name, if_not_exists } => {
            if let Ok(code) = create_schema_code(schema_name, if_not_exists) {
                assert(registers_written_before_read(code));
            }
        },
        Statement::Other { .. } => {},
    }
}

/// Generated code ends with the instruction that carries out the statement:
/// `NewTable` of register 0, `Insert` of register 1, `Return` of the query's
/// result register (the projection's table where there is a projection list),
/// or `NewSchema`.
pub proof fn law_code_ends_with_statement_effect(ast: Statement)
    ensures
        statement_code(ast) matches Ok(code) ==> code.len() > 0 && match ast {
            Statement::CreateTable { if_not_exists, name, .. } => code.last()
                == Instruction::NewTable {
                index: reg(0),
                name: crate::codegen::table_name(name)->Ok_0,
                exists_ok: if_not_exists,
            },
            Statement::Insert { .. } => code.last() == Instruction::Insert { index: reg(1) },
            Statement::Query(q) => code.last() == Instruction::Return { index: result_reg(*q) },
            Statement::CreateSchema { schema_name, if_not_exists } => code.last()
                == Instruction::NewSchema {
                schema_name: crate::identifier::spec_schema_ref(schema_name)->Ok_0,
                exists_ok: if_not_exists,
            },
            Statement::Other { .. } => false,
        },
{
}

// Register numbers -----------------------------------------------------------

/// Running steps whose code names only registers below `count` gives such code.
proof fn lemma_run_steps_registers_below(count: nat, steps: Seq<CodeOutcome>)
    requires
        steps_satisfy(steps, |c: Seq<Instruction>| registers_below(count, c)),
    ensures
        run_steps(steps) matches Ok(code) ==> registers_below(count, code),
    decreases steps.len(),
{
    if steps.len() > 0 {
        let init = steps.drop_last();
        assert forall|k: int| 0 <= k < init.len() implies (#[trigger] init[k] matches Ok(c)
            ==> registers_below(count, c)) by {
            assert(init[k] == steps[k]);
        }
        lemma_run_steps_registers_below(count, init);
        if let Ok(code) = run_steps(steps) {
            let a = run_steps(init)->Ok_0;
            let b = steps.last()->Ok_0;
            assert(steps[steps.len() - 1] == steps.last());
            lemma_registers_below_concat(count, a, b);
        }
    }
}

proof fn lemma_registers_below_concat(count: nat, a: Seq<Instruction>, b: Seq<Instruction>)
    requires
        registers_below(count, a),
        registers_below(count, b),
    ensures
        registers_below(count, a + b),
{
    assert forall|i: int, r: RegisterIndex| 0 <= i < (a + b).len() && #[trigger] (a + b)[i].mentions(r) implies r.0 < count by {
        if i < a.len() {
            assert((a + b)[i] == a[i]);
        } else {
            assert((a + b)[i] == b[i - a.len()]);
        }
    }
}

proof fn lemma_columns_registers(cols: Seq<ColumnDef>)
    ensures
        registers_below(2, columns_code(cols)),
    decreases cols.len(),
{
    if cols.len() > 0 {
        lemma_columns_registers(cols.drop_last());
        let col = cols.last();
        let code = column_code(col);
        assert forall|i: int, r: RegisterIndex| 0 <= i < code.len() && #[trigger] code[i].mentions(r) implies r.0 < 2 by {
            if 0 < i <= col.options@.len() {
                assert(code[i] == Instruction::AddColumnOption { index: reg(1), option: col.options@[i - 1] });
            }
        }
        lemma_registers_below_concat(2, columns_code(cols.drop_last()), code);
    }
}

proof fn lemma_insert_registers(name: crate::ast::ObjectName, columns: Seq<String>, source: Query, sql: String)
    ensures
        insert_code(name, columns, source, sql) matches Ok(code) ==> registers_below(
            crate::codegen::insert_registers(source),
            code,
        ),
{
    if let Ok(code) = insert_code(name, columns, source, sql) {
        let t = crate::codegen::table_name(name)->Ok_0;
        if let SetExpr::Values(values) = source.body {
            let count = values.rows@.len() + 2;
            let head = insert_head(t, columns);
            let steps = rows_steps(values.rows@);
            let rows = run_steps(steps)->Ok_0;
            let tail = seq![Instruction::Insert { index: reg(1) }];
            assert forall|i: int, r: RegisterIndex| 0 <= i < head.len() && #[trigger] head[i].mentions(r) implies r.0 < count by {
                if i >= 2 {
                    assert(head[i] == Instruction::ColumnInsertDef { insert_index: reg(1), col_name: columns[i - 2] });
                }
            }
            assert forall|k: int| 0 <= k < steps.len() implies (#[trigger] steps[k] matches Ok(c)
                ==> registers_below(count, c)) by {
                let row_reg = reg((k + 2) as nat);
                let row = values.rows@[k]@;
                let value_steps = add_value_steps(row_reg, row);
                assert forall|m: int| 0 <= m < value_steps.len() implies (#[trigger] value_steps[m] matches Ok(c)
                    ==> registers_below(count, c)) by {
                    assert(value_steps[m] == add_value_step(row_reg, row[m]));
                }
                lemma_run_steps_registers_below(count, value_steps);
                if let Ok(c) = steps[k] {
                    assert(steps[k] == row_code(row_reg, row));
                    let head_row = seq![Instruction::RowDef { insert_index: reg(1), row_index: row_reg }];
                    lemma_registers_below_concat(count, head_row, run_steps(value_steps)->Ok_0);
                }
            }
            lemma_run_steps_registers_below(count, steps);
            lemma_registers_below_concat(count, head, rows);
            lemma_registers_below_concat(count, head + rows, tail);
            assert(code == head + rows + tail);
        }
    }
}

proof fn lemma_query_registers(q: Query)
    ensures
        query_code(q) matches Ok(code) ==> registers_below(2, code),
{
    if let Ok(code) = query_code(q) {
        let body = body_code(q)->Ok_0;
        let out = result_reg(q);
        let limit = limit_code(out, q.limit)->Ok_0;
        let order_steps = order_steps(out, q.order_by@);
        let order_by = run_steps(order_steps)->Ok_0;
        let tail = seq![Instruction::Return { index: out }];
        match q.body {
            SetExpr::Select(s) => {
                let s = *s;
                let from = from_code(s)->Ok_0;
                let selection = filter_code(s.selection)->Ok_0;
                let group_steps = group_by_steps(s.group_by@);
                let group_by = run_steps(group_steps)->Ok_0;
                let having = filter_code(s.having)->Ok_0;
                let projection = projection_code(s)->Ok_0;
                assert forall|k: int| 0 <= k < group_steps.len() implies (#[trigger] group_steps[k] matches Ok(c)
                    ==> registers_below(2, c)) by {
                    assert(group_steps[k] == group_by_step(s.group_by@[k]));
                }
                lemma_run_steps_registers_below(2, group_steps);
                if s.projection@.len() != 0 {
                    let item_steps = project_steps(s.projection@);
                    assert forall|k: int| 0 <= k < item_steps.len() implies (#[trigger] item_steps[k] matches Ok(c)
                        ==> registers_below(2, c)) by {
                        assert(item_steps[k] == project_step(s.projection@[k]));
                    }
                    lemma_run_steps_registers_below(2, item_steps);
                    let head = seq![Instruction::Empty { index: reg(1) }];
                    lemma_registers_below_concat(2, head, run_steps(item_steps)->Ok_0);
                    assert(projection =~= head + run_steps(item_steps)->Ok_0);
                }
                lemma_registers_below_concat(2, from, selection);
                lemma_registers_below_concat(2, from + selection, group_by);
                lemma_registers_below_concat(2, from + selection + group_by, having);
                lemma_registers_below_concat(2, from + selection + group_by + having, projection);
            },
            _ => {},
        }
        assert forall|k: int| 0 <= k < order_steps.len() implies (#[trigger] order_steps[k] matches Ok(c)
            ==> registers_below(2, c)) by {
            assert(order_steps[k] == order_step(out, q.order_by@[k]));
        }
        lemma_run_steps_registers_below(2, order_steps);
        lemma_registers_below_concat(2, body, limit);
        lemma_registers_below_concat(2, body + limit, order_by);
        lemma_registers_below_concat(2, body + limit + order_by, tail);
    }
}

/// Generated code names only the registers that [`crate::codegen::registers_needed`]
/// counts.
pub proof fn law_registers_within_count(ast: Statement)
    ensures
        statement_code(ast) matches Ok(code) ==> registers_below(
            crate::codegen::registers_needed(ast),
            code,
        ),
{
    match ast {
        Statement::CreateTable { if_not_exists, name, columns } => {
            if let Ok(code) = statement_code(ast) {
                lemma_columns_registers(columns@);
                let head = seq![Instruction::Empty { index: reg(0) }];
                let tail = code.subrange((1 + columns_code(columns@).len()) as int, code.len() as int);
                assert(code =~= head + columns_code(columns@) + tail);
                lemma_registers_below_concat(2, head, columns_code(columns@));
                lemma_registers_below_concat(2, head + columns_code(columns@), tail);
            }
        },
        Statement::Insert { table_name, columns, source, sql } => lemma_insert_registers(
            table_name,
            columns@,
            *source,
            sql,
        ),
        Statement::Query(q) => lemma_query_registers(*q),
        _ => {},
    }
}

// Created registers ----------------------------------------------------------

/// Whether every register that `code` creates is numbered in `lo..hi`.
pub open spec fn creates_within(lo: nat, hi: nat, code: Seq<Instruction>) -> bool {
    forall|j: int, r: RegisterIndex| 0 <= j < code.len() && #[trigger] code[j].creates(r) ==> lo <= r.0 < hi
}

/// Whether `code` creates no register.
pub open spec fn creates_nothing(code: Seq<Instruction>) -> bool {
    forall|j: int, r: RegisterIndex| 0 <= j < code.len() ==> !#[trigger] code[j].creates(r)
}

/// Code creating registers in `lo1..hi1`, then code creating registers in
/// `lo2..hi2` above them.
proof fn lemma_creates_concat(
    a: Seq<Instruction>,
    lo1: nat,
    hi1: nat,
    b: Seq<Instruction>,
    lo2: nat,
    hi2: nat,
)
    requires
        creates_distinct_registers(a),
        creates_within(lo1, hi1, a),
        creates_distinct_registers(b),
        creates_within(lo2, hi2, b),
        lo1 <= hi1 <= lo2 <= hi2,
    ensures
        creates_distinct_registers(a + b),
        creates_within(lo1, hi2, a + b),
{
    let c = a + b;
    assert forall|i: int, j: int, r: RegisterIndex|
        0 <= i < c.len() && 0 <= j < c.len() && #[trigger] c[i].creates(r) && #[trigger] c[j].creates(r) implies i == j by {
        if i < a.len() {
            assert(c[i] == a[i]);
        } else {
            assert(c[i] == b[i - a.len()]);
        }
        if j < a.len() {
            assert(c[j] == a[j]);
        } else {
            assert(c[j] == b[j - a.len()]);
        }
    }
    assert forall|j: int, r: RegisterIndex| 0 <= j < c.len() && #[trigger] c[j].creates(r) implies lo1 <= r.0 < hi2 by {
        if j < a.len() {
            assert(c[j] == a[j]);
        } else {
            assert(c[j] == b[j - a.len()]);
        }
    }
}

/// Code extended by code that creates no register.
proof fn lemma_creates_then_nothing(a: Seq<Instruction>, lo: nat, hi: nat, b: Seq<Instruction>)
    requires
        creates_distinct_registers(a),
        creates_within(lo, hi, a),
        creates_nothing(b),
    ensures
        creates_distinct_registers(a + b),
        creates_within(lo, hi, a + b),
{
    let c = a + b;
    assert forall|i: int, j: int, r: RegisterIndex|
        0 <= i < c.len() && 0 <= j < c.len() && #[trigger] c[i].creates(r) && #[trigger] c[j].creates(r) implies i == j by {
        if i >= a.len() {
            assert(c[i] == b[i - a.len()]);
        }
        if j >= a.len() {
            assert(c[j] == b[j - a.len()]);
        }
        assert(c[i] == a[i]);
        assert(c[j] == a[j]);
    }
    assert forall|j: int, r: RegisterIndex| 0 <= j < c.len() && #[trigger] c[j].creates(r) implies lo <= r.0 < hi by {
        if j >= a.len() {
            assert(c[j] == b[j - a.len()]);
        }
        assert(c[j] == a[j]);
    }
}

/// Code that creates nothing, concatenated.
proof fn lemma_nothing_concat(a: Seq<Instruction>, b: Seq<Instruction>)
    requires
        creates_nothing(a),
        creates_nothing(b),
    ensures
        creates_nothing(a + b),
{
    assert forall|j: int, r: RegisterIndex| 0 <= j < (a + b).len() implies !#[trigger] (a + b)[j].creates(r) by {
        if j < a.len() {
            assert((a + b)[j] == a[j]);
        } else {
            assert((a + b)[j] == b[j - a.len()]);
        }
    }
}

/// Running steps none of whose code creates a register.
proof fn lemma_run_steps_creates_nothing(steps: Seq<CodeOutcome>)
    requires
        steps_satisfy(steps, |c: Seq<Instruction>| creates_nothing(c)),
    ensures
        run_steps(steps) matches Ok(code) ==> creates_nothing(code),
    decreases steps.len(),
{
    if steps.len() > 0 {
        let init = steps.drop_last();
        assert forall|k: int| 0 <= k < init.len() implies (#[trigger] init[k] matches Ok(c)
            ==> creates_nothing(c)) by {
            assert(init[k] == steps[k]);
        }
        lemma_run_steps_creates_nothing(init);
        if let Ok(code) = run_steps(steps) {
            assert(steps[steps.len() - 1] == steps.last());
            lemma_nothing_concat(run_steps(init)->Ok_0, steps.last()->Ok_0);
        }
    }
}

/// One instruction that creates register `r`.
proof fn lemma_creates_single(instr: Instruction, r: RegisterIndex)
    requires
        instr.creates(r),
    ensures
        creates_distinct_registers(seq![instr]),
        creates_within(r.0 as nat, (r.0 + 1) as nat, seq![instr]),
{
}

proof fn lemma_columns_create_nothing(cols: Seq<ColumnDef>)
    ensures
        creates_nothing(columns_code(cols)),
    decreases cols.len(),
{
    if cols.len() > 0 {
        lemma_columns_create_nothing(cols.drop_last());
        let col = cols.last();
        let code = column_code(col);
        assert forall|j: int, r: RegisterIndex| 0 <= j < code.len() implies !#[trigger] code[j].creates(r) by {
            if 0 < j <= col.options@.len() {
                assert(code[j] == Instruction::AddColumnOption { index: reg(1), option: col.options@[j - 1] });
            }
        }
        lemma_nothing_concat(columns_code(cols.drop_last()), code);
    }
}

/// The first `m` rows of an insertion create registers `2..m + 2`, each once.
proof fn lemma_rows_create(rows: Seq<Vec<SqlExpr>>, m: int)
    requires
        0 <= m <= rows.len(),
        rows.len() + 2 <= usize::MAX,
    ensures
        run_steps(rows_steps(rows).take(m)) matches Ok(code) ==> creates_distinct_registers(code)
            && creates_within(2, (m + 2) as nat, code),
    decreases m,
{
    let steps = rows_steps(rows);
    if m > 0 {
        lemma_rows_create(rows, m - 1);
        lemma_run_steps_take_next(steps, m - 1);
        if let Ok(code) = run_steps(steps.take(m)) {
            let prefix = run_steps(steps.take(m - 1))->Ok_0;
            let row_reg = reg((m - 1 + 2) as nat);
            let row = rows[m - 1]@;
            let value_steps = add_value_steps(row_reg, row);
            assert forall|k: int| 0 <= k < value_steps.len() implies (#[trigger] value_steps[k] matches Ok(c)
                ==> creates_nothing(c)) by {
                assert(value_steps[k] == add_value_step(row_reg, row[k]));
            }
            lemma_run_steps_creates_nothing(value_steps);
            let head = seq![Instruction::RowDef { insert_index: reg(1), row_index: row_reg }];
            let values = run_steps(value_steps)->Ok_0;
            assert(steps[m - 1] == row_code(row_reg, row));
            lemma_creates_single(head[0], row_reg);
            assert(head =~= seq![head[0]]);
            lemma_creates_then_nothing(head, (m + 1) as nat, (m + 2) as nat, values);
            lemma_creates_concat(prefix, 2, (m + 1) as nat, head + values, (m + 1) as nat, (m + 2) as nat);
        }
    } else {
        if let Ok(code) = run_steps(steps.take(m)) {
            assert(code.len() == 0);
        }
    }
}

proof fn lemma_insert_creates(name: crate::ast::ObjectName, columns: Seq<String>, source: Query, sql: String)
    requires
        crate::codegen::insert_registers(source) <= usize::MAX,
    ensures
        insert_code(name, columns, source, sql) matches Ok(code) ==> creates_distinct_registers(code),
{
    if let Ok(code) = insert_code(name, columns, source, sql) {
        let t = crate::codegen::table_name(name)->Ok_0;
        if let SetExpr::Values(values) = source.body {
            let n = values.rows@.len();
            let head = insert_head(t, columns);
            let steps = rows_steps(values.rows@);
            let rows = run_steps(steps)->Ok_0;
            let tail = seq![Instruction::Insert { index: reg(1) }];
            assert forall|i: int, j: int, r: RegisterIndex|
                0 <= i < head.len() && 0 <= j < head.len() && #[trigger] head[i].creates(r)
                    && #[trigger] head[j].creates(r) implies i == j by {
                if i >= 2 {
                    assert(head[i] == Instruction::ColumnInsertDef { insert_index: reg(1), col_name: columns[i - 2] });
                }
                if j >= 2 {
                    assert(head[j] == Instruction::ColumnInsertDef { insert_index: reg(1), col_name: columns[j - 2] });
                }
            }
            assert forall|j: int, r: RegisterIndex| 0 <= j < head.len() && #[trigger] head[j].creates(r) implies 0 <= r.0 < 2 by {
                if j >= 2 {
                    assert(head[j] == Instruction::ColumnInsertDef { insert_index: reg(1), col_name: columns[j - 2] });
                }
            }
            lemma_rows_create(values.rows@, n as int);
            assert(steps.take(n as int) =~= steps);
            lemma_creates_concat(head, 0, 2, rows, 2, n + 2);
            lemma_creates_then_nothing(head + rows, 0, n + 2, tail);
            assert(code == head + rows + tail);
        }
    }
}

proof fn lemma_query_creates(q: Query)
    ensures
        query_code(q) matches Ok(code) ==> creates_distinct_registers(code) && creates_within(0, 2, code),
{
    if let Ok(code) = query_code(q) {
        let out = result_reg(q);
        let body = body_code(q)->Ok_0;
        let limit = limit_code(out, q.limit)->Ok_0;
        let order_steps = order_steps(out, q.order_by@);
        let order_by = run_steps(order_steps)->Ok_0;
        let tail = seq![Instruction::Return { index: out }];
        match q.body {
            SetExpr::Select(s) => {
                let s = *s;
                let from = from_code(s)->Ok_0;
                let selection = filter_code(s.selection)->Ok_0;
                let group_steps = group_by_steps(s.group_by@);
                let group_by = run_steps(group_steps)->Ok_0;
                let having = filter_code(s.having)->Ok_0;
                let projection = projection_code(s)->Ok_0;
                assert forall|k: int| 0 <= k < group_steps.len() implies (#[trigger] group_steps[k] matches Ok(c)
                    ==> creates_nothing(c)) by {
                    assert(group_steps[k] == group_by_step(s.group_by@[k]));
                }
                lemma_run_steps_creates_nothing(group_steps);
                lemma_creates_single(from[0], reg(0));
                assert(from =~= seq![from[0]]);
                lemma_creates_then_nothing(from, 0, 1, selection);
                lemma_creates_then_nothing(from + selection, 0, 1, group_by);
                lemma_creates_then_nothing(from + selection + group_by, 0, 1, having);
                let before = from + selection + group_by + having;
                if s.projection@.len() != 0 {
                    let item_steps = project_steps(s.projection@);
                    assert forall|k: int| 0 <= k < item_steps.len() implies (#[trigger] item_steps[k] matches Ok(c)
                        ==> creates_nothing(c)) by {
                        assert(item_steps[k] == project_step(s.projection@[k]));
                    }
                    lemma_run_steps_creates_nothing(item_steps);
                    let head = seq![Instruction::Empty { index: reg(1) }];
                    lemma_creates_single(head[0], reg(1));
                    assert(head =~= seq![head[0]]);
                    lemma_creates_then_nothing(head, 1, 2, run_steps(item_steps)->Ok_0);
                    assert(projection =~= head + run_steps(item_steps)->Ok_0);
                    lemma_creates_concat(before, 0, 1, projection, 1, 2);
                } else {
                    lemma_creates_then_nothing(before, 0, 1, projection);
                }
                assert(creates_within(0, 2, body));
            },
            _ => {
                lemma_creates_single(body[0], reg(0));
                assert(body =~= seq![body[0]]);
            },
        }
        assert forall|k: int| 0 <= k < order_steps.len() implies (#[trigger] order_steps[k] matches Ok(c)
            ==> creates_nothing(c)) by {
            assert(order_steps[k] == order_step(out, q.order_by@[k]));
        }
        lemma_run_steps_creates_nothing(order_steps);
        lemma_creates_then_nothing(body, 0, 2, limit);
        lemma_creates_then_nothing(body + limit, 0, 2, order_by);
        lemma_creates_then_nothing(body + limit + order_by, 0, 2, tail);
    }
}

/// No two instructions of generated code create the same register: each
/// table, insertion, row and value gets a register of its own. (The column
/// definitions of `CREATE TABLE` are built one after another in one register,
/// which this does not count as creating it.)
pub proof fn law_created_registers_distinct(ast: Statement)
    requires
        crate::codegen::registers_needed(ast) <= usize::MAX,
    ensures
        statement_code(ast) matches Ok(code) ==> creates_distinct_registers(code),
{
    match ast {
        Statement::CreateTable { if_not_exists, name, columns } => {
            if let Ok(code) = statement_code(ast) {
                lemma_columns_create_nothing(columns@);
                let head = seq![Instruction::Empty { index: reg(0) }];
                let tail = code.subrange((1 + columns_code(columns@).len()) as int, code.len() as int);
                assert(code =~= head + columns_code(columns@) + tail);
                lemma_creates_single(head[0], reg(0));
                lemma_creates_then_nothing(head, 0, 1, columns_code(columns@));
                lemma_creates_then_nothing(head + columns_code(columns@), 0, 1, tail);
            }
        },
        Statement::Insert { table_name, columns, source, sql } => lemma_insert_creates(
            table_name,
            columns@,
            *source,
            sql,
        ),
        Statement::Query(q) => lemma_query_creates(*q),
        _ => {},
    }
}

} // verus!
