//! Intermediate code generation from the statement tree.

use vstd::prelude::*;

use crate::ast::{
    ColumnDef, ObjectName, OrderByExpr, Query, Select, SelectItem, SetExpr, SqlExpr, Statement,
    TableFactor,
};
use crate::expr::{Expr, ExprError};
use crate::ic::{Instruction, IntermediateCode};
use crate::identifier::{
    spec_schema_ref, spec_table_ref, IdentifierError, SchemaRef, TableRef,
};
use crate::refusal::{refusal_message, refusal_text};
use crate::value::{Value, ValueError};
use crate::vm::RegisterIndex;

verus! {

/// Why a statement could not be lowered into intermediate code.
#[derive(Debug, PartialEq)]
pub enum CodegenError {
    /// A kind of statement that has no lowering; holds the statement's SQL text.
    UnsupportedStatement(String),
    /// A form of a statement that has no lowering yet: the reason, and the SQL
    /// text of the part that has that form.
    UnsupportedStatementForm(&'static str, String),
    /// A name that does not denote a schema or a table.
    InvalidIdentifier(IdentifierError),
    /// An expression that cannot be lowered.
    Expr(ExprError),
}

impl From<IdentifierError> for CodegenError {
    fn from(i: IdentifierError) -> (e: CodegenError)
        ensures
            e == CodegenError::InvalidIdentifier(i),
    {
        CodegenError::InvalidIdentifier(i)
    }
}

impl vstd::std_specs::convert::FromSpecImpl<IdentifierError> for CodegenError {
    open spec fn obeys_from_spec() -> bool {
        true
    }

    open spec fn from_spec(i: IdentifierError) -> CodegenError {
        CodegenError::InvalidIdentifier(i)
    }
}

impl From<ExprError> for CodegenError {
    fn from(e: ExprError) -> (c: CodegenError)
        ensures
            c == CodegenError::Expr(e),
    {
        CodegenError::Expr(e)
    }
}

impl vstd::std_specs::convert::FromSpecImpl<ExprError> for CodegenError {
    open spec fn obeys_from_spec() -> bool {
        true
    }

    open spec fn from_spec(e: ExprError) -> CodegenError {
        CodegenError::Expr(e)
    }
}

impl From<ValueError> for CodegenError {
    /// A refused literal is a refused expression.
    fn from(v: ValueError) -> (c: CodegenError)
        ensures
            c == CodegenError::Expr(ExprError::Value(v)),
    {
        CodegenError::Expr(ExprError::from(v))
    }
}

impl vstd::std_specs::convert::FromSpecImpl<ValueError> for CodegenError {
    open spec fn obeys_from_spec() -> bool {
        true
    }

    open spec fn from_spec(v: ValueError) -> CodegenError {
        CodegenError::Expr(ExprError::Value(v))
    }
}

impl CodegenError {
    /// The text of [`CodegenError::message`].
    pub open spec fn message_text(self) -> Seq<char> {
        match self {
            CodegenError::UnsupportedStatement(sql) => "Unsupported statement: "@ + sql@,
            CodegenError::UnsupportedStatementForm(reason, sql) => "Unsupported: "@ + refusal_text(
                reason@,
                sql@,
            ),
            CodegenError::InvalidIdentifier(i) => refusal_text(i.reason@, i.name@),
            CodegenError::Expr(e) => e.message_text(),
        }
    }

    /// A human-readable description of the error.
    pub fn message(&self) -> (text: String)
        ensures
            text@ == self.message_text(),
    {
        match self {
            CodegenError::UnsupportedStatement(sql) => {
                let mut text = String::from_str("Unsupported statement: ");
                text.append(sql.as_str());
                text
            },
            CodegenError::UnsupportedStatementForm(reason, sql) => {
                let refusal = refusal_message(reason, sql.as_str());
                let mut text = String::from_str("Unsupported: ");
                text.append(refusal.as_str());
                proof {
                    assert(text@ =~= "Unsupported: "@ + refusal_text(reason@, sql@));
                }
                text
            },
            CodegenError::InvalidIdentifier(i) => i.message(),
            CodegenError::Expr(e) => e.message(),
        }
    }
}

// ----------------------------------------------------------------------------
// What code generation produces, stated over sequences of instructions.
// ----------------------------------------------------------------------------

/// The outcome of generating code for one part of a statement: its
/// instructions, or the error that stops generation.
pub type CodeOutcome = Result<Seq<Instruction>, CodegenError>;

/// Generating `first` and then `next`: the instructions of both in order, or
/// the first error met.
pub open spec fn followed_by(first: CodeOutcome, next: CodeOutcome) -> CodeOutcome {
    match first {
        Err(e) => Err(e),
        Ok(a) => match next {
            Err(e) => Err(e),
            Ok(b) => Ok(a + b),
        },
    }
}

/// Generating each of `steps` in order.
pub open spec fn run_steps(steps: Seq<CodeOutcome>) -> CodeOutcome
    decreases steps.len(),
{
    if steps.len() == 0 {
        Ok(Seq::empty())
    } else {
        followed_by(run_steps(steps.drop_last()), steps.last())
    }
}

/// The code of no instruction.
pub open spec fn no_code() -> CodeOutcome {
    Ok(Seq::empty())
}

/// The register with number `n`.
pub open spec fn reg(n: nat) -> RegisterIndex {
    RegisterIndex(n as usize)
}

/// The expression `e` lowered, or the error of lowering it.
pub open spec fn lower(e: SqlExpr) -> Result<Expr, CodegenError> {
    match e.lowered {
        Ok(x) => Ok(x),
        Err(err) => Err(CodegenError::Expr(err)),
    }
}

/// Whether `r` holds the instructions of `code`, or the same error.
pub open spec fn matches_code(r: Result<Vec<Instruction>, CodegenError>, code: CodeOutcome) -> bool {
    match (r, code) {
        (Ok(v), Ok(c)) => v@ == c,
        (Err(e), Err(f)) => e == f,
        _ => false,
    }
}

/// The name of a table, resolved as [`spec_table_ref`] says.
pub open spec fn table_name(name: ObjectName) -> Result<TableRef, CodegenError> {
    match spec_table_ref(name) {
        Ok(t) => Ok(t),
        Err(e) => Err(CodegenError::InvalidIdentifier(e)),
    }
}

/// A form that has no lowering.
pub open spec fn unsupported(reason: &'static str, sql: String) -> CodeOutcome {
    Err(CodegenError::UnsupportedStatementForm(reason, sql))
}

// CREATE SCHEMA --------------------------------------------------------------

/// `CREATE SCHEMA`: one `NewSchema`.
pub open spec fn create_schema_code(schema_name: ObjectName, if_not_exists: bool) -> CodeOutcome {
    match spec_schema_ref(schema_name) {
        Ok(s) => Ok(seq![Instruction::NewSchema { schema_name: s, exists_ok: if_not_exists }]),
        Err(e) => Err(CodegenError::InvalidIdentifier(e)),
    }
}

// CREATE TABLE ---------------------------------------------------------------

/// The instructions that define one column in register 1 and add it to the
/// table in register 0.
pub open spec fn column_code(col: ColumnDef) -> Seq<Instruction> {
    seq![Instruction::ColumnDef { index: reg(1), name: col.name, data_type: col.data_type }]
        + col.options@.map_values(
        |option| Instruction::AddColumnOption { index: reg(1), option: option },
    ) + seq![Instruction::AddColumn { table_reg_index: reg(0), col_index: reg(1) }]
}

/// The code of each column, in order.
pub open spec fn columns_code(cols: Seq<ColumnDef>) -> Seq<Instruction>
    decreases cols.len(),
{
    if cols.len() == 0 {
        Seq::empty()
    } else {
        columns_code(cols.drop_last()) + column_code(cols.last())
    }
}

/// `CREATE TABLE`: an empty table in register 0, its columns, then `NewTable`.
pub open spec fn create_table_code(
    if_not_exists: bool,
    name: ObjectName,
    columns: Seq<ColumnDef>,
) -> CodeOutcome {
    match table_name(name) {
        Ok(t) => Ok(
            seq![Instruction::Empty { index: reg(0) }] + columns_code(columns) + seq![
                Instruction::NewTable { index: reg(0), name: t, exists_ok: if_not_exists },
            ],
        ),
        Err(e) => Err(e),
    }
}

// INSERT ---------------------------------------------------------------------

/// Adding the value of `e` to the row in register `row_reg`.
pub open spec fn add_value_step(row_reg: RegisterIndex, e: SqlExpr) -> CodeOutcome {
    match lower(e) {
        Ok(x) => Ok(seq![Instruction::AddValue { row_index: row_reg, expr: x }]),
        Err(err) => Err(err),
    }
}

/// Adding each value of a row to register `row_reg`.
pub open spec fn add_value_steps(row_reg: RegisterIndex, row: Seq<SqlExpr>) -> Seq<CodeOutcome> {
    row.map_values(|e: SqlExpr| add_value_step(row_reg, e))
}

/// A row of the insertion in register 1, built in register `row_reg`.
pub open spec fn row_code(row_reg: RegisterIndex, row: Seq<SqlExpr>) -> CodeOutcome {
    followed_by(
        Ok(seq![Instruction::RowDef { insert_index: reg(1), row_index: row_reg }]),
        run_steps(add_value_steps(row_reg, row)),
    )
}

/// Each row, the `i`-th built in register `i + 2`.
pub open spec fn rows_steps(rows: Seq<Vec<SqlExpr>>) -> Seq<CodeOutcome> {
    Seq::new(rows.len(), |i: int| row_code(reg((i + 2) as nat), rows[i]@))
}

/// The head of an insertion into table `t`: the table in register 0, the
/// insertion in register 1, and the columns it fills.
pub open spec fn insert_head(t: TableRef, columns: Seq<String>) -> Seq<Instruction> {
    seq![
        Instruction::Source { index: reg(0), name: t },
        Instruction::InsertDef { table_reg_index: reg(0), index: reg(1) },
    ] + columns.map_values(
        |c: String| Instruction::ColumnInsertDef { insert_index: reg(1), col_name: c },
    )
}

/// `INSERT ... VALUES`: the head, the rows, then `Insert`; only a `VALUES`
/// source is lowered.
pub open spec fn insert_code(
    name: ObjectName,
    columns: Seq<String>,
    source: Query,
    sql: String,
) -> CodeOutcome {
    match table_name(name) {
        Err(e) => Err(e),
        Ok(t) => match source.body {
            SetExpr::Values(values) => followed_by(
                followed_by(Ok(insert_head(t, columns)), run_steps(rows_steps(values.rows@))),
                Ok(seq![Instruction::Insert { index: reg(1) }]),
            ),
            _ => unsupported("Only insert with values is supported.", sql),
        },
    }
}

// Queries --------------------------------------------------------------------

/// The single table that a `SELECT` reads, put in register 0.
pub open spec fn from_code(s: Select) -> CodeOutcome {
    if s.from@.len() != 1 {
        unsupported("Only select from a single table is supported for now", s.sql)
    } else if s.from@[0].joins@.len() != 0 {
        unsupported("Joins are not supported yet", s.sql)
    } else {
        match s.from@[0].relation {
            TableFactor::Table { name } => match table_name(name) {
                Ok(t) => Ok(seq![Instruction::Source { index: reg(0), name: t }]),
                Err(e) => Err(e),
            },
            TableFactor::Derived { sql } => unsupported("Derived tables are not supportd yet", sql),
            TableFactor::NestedJoin { sql } => unsupported("Nested JOINs are not supportd yet", sql),
            TableFactor::TableFunction { sql } => unsupported(
                "Table functions are not supportd yet",
                sql,
            ),
            TableFactor::Unnest { sql } => unsupported("UNNEST are not supportd yet", sql),
        }
    }
}

/// A filter of the table in register 0 by `e`, where there is one.
pub open spec fn filter_code(e: Option<SqlExpr>) -> CodeOutcome {
    match e {
        None => no_code(),
        Some(e) => match lower(e) {
            Ok(x) => Ok(seq![Instruction::Filter { index: reg(0), expr: x }]),
            Err(err) => Err(err),
        },
    }
}

/// Grouping the table in register 0 by `e`.
pub open spec fn group_by_step(e: SqlExpr) -> CodeOutcome {
    match lower(e) {
        Ok(x) => Ok(seq![Instruction::GroupBy { index: reg(0), expr: x }]),
        Err(err) => Err(err),
    }
}

/// Grouping by each of `exprs`.
pub open spec fn group_by_steps(exprs: Seq<SqlExpr>) -> Seq<CodeOutcome> {
    exprs.map_values(|e: SqlExpr| group_by_step(e))
}

/// Projecting one item of a `SELECT` list from register 0 into register 1.
pub open spec fn project_step(item: SelectItem) -> CodeOutcome {
    match item {
        SelectItem::UnnamedExpr(e) => match lower(e) {
            Ok(x) => Ok(
                seq![Instruction::Project { input: reg(0), output: reg(1), expr: x, alias: None }],
            ),
            Err(err) => Err(err),
        },
        SelectItem::ExprWithAlias { expr, alias } => match lower(expr) {
            Ok(x) => Ok(
                seq![
                    Instruction::Project {
                        input: reg(0),
                        output: reg(1),
                        expr: x,
                        alias: Some(alias),
                    },
                ],
            ),
            Err(err) => Err(err),
        },
        SelectItem::QualifiedWildcard(name) => unsupported(
            "Qualified wildcards are not supported yet",
            name.sql,
        ),
        SelectItem::Wildcard => Ok(
            seq![
                Instruction::Project {
                    input: reg(0),
                    output: reg(1),
                    expr: Expr::Wildcard,
                    alias: None,
                },
            ],
        ),
    }
}

/// Projecting each of `items`.
pub open spec fn project_steps(items: Seq<SelectItem>) -> Seq<CodeOutcome> {
    items.map_values(|item: SelectItem| project_step(item))
}

/// The projection of a `SELECT`, into an empty table in register 1; none for
/// an empty list. `DISTINCT` is refused after the list.
pub open spec fn projection_code(s: Select) -> CodeOutcome {
    if s.projection@.len() == 0 {
        no_code()
    } else {
        followed_by(
            followed_by(
                Ok(seq![Instruction::Empty { index: reg(1) }]),
                run_steps(project_steps(s.projection@)),
            ),
            if s.distinct {
                unsupported("DISTINCT is not supported yet", s.sql)
            } else {
                no_code()
            },
        )
    }
}

/// A `SELECT`: its table, `WHERE`, `GROUP BY`, `HAVING` and projection.
pub open spec fn select_code(s: Select) -> CodeOutcome {
    followed_by(
        followed_by(
            followed_by(
                followed_by(from_code(s), filter_code(s.selection)),
                run_steps(group_by_steps(s.group_by@)),
            ),
            filter_code(s.having),
        ),
        projection_code(s),
    )
}

/// The body of a query: a `SELECT`, or a `VALUES` list of one value put in
/// register 0.
pub open spec fn body_code(q: Query) -> CodeOutcome {
    match q.body {
        SetExpr::Select(s) => select_code(*s),
        SetExpr::Values(values) => if values.rows@.len() == 1 && values.rows@[0]@.len() == 1 {
            match lower(values.rows@[0]@[0]) {
                Ok(x) => Ok(seq![Instruction::Expr { index: reg(0), expr: x }]),
                Err(err) => Err(err),
            }
        } else {
            unsupported("Selecting more than one value is not supported yet", values.sql)
        },
        SetExpr::Query { sql } => unsupported("Query within a query not supported yet", sql),
        SetExpr::SetOperation => unsupported("Set operations are not supported yet", q.sql),
        SetExpr::Insert { sql } => unsupported("Insert within query not supported yet", sql),
    }
}

/// The register that holds the result of a query: the projection's table
/// in register 1 for a `SELECT` with a projection list, else register 0.
pub open spec fn result_reg(q: Query) -> RegisterIndex {
    match q.body {
        SetExpr::Select(s) => if s.projection@.len() != 0 {
            reg(1)
        } else {
            reg(0)
        },
        _ => reg(0),
    }
}

/// The `LIMIT` of a query on the table in register `out`, which must be an
/// integer literal.
pub open spec fn limit_code(out: RegisterIndex, limit: Option<SqlExpr>) -> CodeOutcome {
    match limit {
        None => no_code(),
        Some(e) => match e.literal {
            Some(Ok(Value::Int64(n))) => Ok(
                seq![Instruction::Limit { index: out, limit: n as u64 }],
            ),
            Some(Ok(_)) => Err(
                CodegenError::Expr(
                    ExprError::Value(
                        ValueError {
                            reason: "Only constant integer LIMITs are supported",
                            value: e.sql,
                        },
                    ),
                ),
            ),
            Some(Err(ve)) => Err(CodegenError::Expr(ExprError::Value(ve))),
            None => Err(
                CodegenError::Expr(
                    ExprError::Expr {
                        reason: "Only constant integer LIMITs are supported",
                        expr: e.sql,
                    },
                ),
            ),
        },
    }
}

/// Sorting the table in register `out` by one `ORDER BY` item, ascending
/// unless `DESC` is written.
pub open spec fn order_step(out: RegisterIndex, o: OrderByExpr) -> CodeOutcome {
    match lower(o.expr) {
        Ok(x) => Ok(
            seq![
                Instruction::Order {
                    index: out,
                    expr: x,
                    ascending: match o.asc {
                        Some(a) => a,
                        None => true,
                    },
                },
            ],
        ),
        Err(err) => Err(err),
    }
}

/// Sorting by each of `items`.
pub open spec fn order_steps(out: RegisterIndex, items: Seq<OrderByExpr>) -> Seq<CodeOutcome> {
    items.map_values(|o: OrderByExpr| order_step(out, o))
}

/// A query: its body, then `LIMIT`, `ORDER BY` and `Return` of the result
/// register.
pub open spec fn query_code(q: Query) -> CodeOutcome {
    followed_by(
        followed_by(
            followed_by(body_code(q), limit_code(result_reg(q), q.limit)),
            run_steps(order_steps(result_reg(q), q.order_by@)),
        ),
        Ok(seq![Instruction::Return { index: result_reg(q) }]),
    )
}

// Statements -----------------------------------------------------------------

/// The intermediate code of a statement, or why there is none.
pub open spec fn statement_code(ast: Statement) -> CodeOutcome {
    match ast {
        Statement::CreateTable { if_not_exists, name, columns } => create_table_code(
            if_not_exists,
            name,
            columns@,
        ),
        Statement::Insert { table_name, columns, source, sql } => insert_code(
            table_name,
            columns@,
            *source,
            sql,
        ),
        Statement::Query(q) => query_code(*q),
        Statement::CreateSchema { schema_name, if_not_exists } => create_schema_code(
            schema_name,
            if_not_exists,
        ),
        Statement::Other { sql } => Err(CodegenError::UnsupportedStatement(sql)),
    }
}

/// The number of registers that the code of `ast` numbers: the rows of an
/// insertion take one each, after the table and the insertion.
pub open spec fn registers_needed(ast: Statement) -> nat {
    match ast {
        Statement::Insert { source, .. } => insert_registers(*source),
        _ => 2,
    }
}

/// The number of registers that the code of an insertion from `source` numbers.
pub open spec fn insert_registers(source: Query) -> nat {
    match source.body {
        SetExpr::Values(values) => values.rows@.len() + 2,
        _ => 2,
    }
}

// ----------------------------------------------------------------------------
// Facts about running steps in order.
// ----------------------------------------------------------------------------

/// Running the first `i + 1` steps is running the first `i`, then step `i`.
pub proof fn lemma_run_steps_take_next(steps: Seq<CodeOutcome>, i: int)
    requires
        0 <= i < steps.len(),
    ensures
        run_steps(steps.take(i + 1)) == followed_by(run_steps(steps.take(i)), steps[i]),
{
    assert(steps.take(i + 1).drop_last() =~= steps.take(i));
}

/// Running all steps is running their first `i`, when that stops on an error.
pub proof fn lemma_run_steps_stops_at_error(steps: Seq<CodeOutcome>, i: int)
    requires
        0 <= i <= steps.len(),
        run_steps(steps.take(i)) is Err,
    ensures
        run_steps(steps) == run_steps(steps.take(i)),
    decreases steps.len() - i,
{
    if i < steps.len() {
        lemma_run_steps_take_next(steps, i);
        lemma_run_steps_stops_at_error(steps, i + 1);
    } else {
        assert(steps.take(i) =~= steps);
    }
}

// ----------------------------------------------------------------------------
// Generation.
// ----------------------------------------------------------------------------

/// Lowers an expression, as [`lower`] says.
fn lower_expr(e: &SqlExpr) -> (r: Result<Expr, CodegenError>)
    ensures
        r == lower(*e),
{
    match &e.lowered {
        Ok(x) => Ok(x.clone()),
        Err(err) => Err(CodegenError::Expr(err.clone())),
    }
}

/// Resolves a table name, as [`table_name`] says.
fn resolve_table(name: &ObjectName) -> (r: Result<TableRef, CodegenError>)
    ensures
        r == table_name(*name),
{
    match TableRef::from_name(name) {
        Ok(t) => Ok(t),
        Err(e) => Err(CodegenError::InvalidIdentifier(e)),
    }
}

/// The code of the columns of `CREATE TABLE`.
fn gen_columns(columns: &Vec<ColumnDef>, table_reg: RegisterIndex, col_reg: RegisterIndex) -> (code: Vec<Instruction>)
    requires
        table_reg == reg(0),
        col_reg == reg(1),
    ensures
        code@ == columns_code(columns@),
{
    let mut code: Vec<Instruction> = Vec::new();
    let mut i: usize = 0;
    while i < columns.len()
        invariant
            i <= columns.len(),
            table_reg == reg(0),
            col_reg == reg(1),
            code@ == columns_code(columns@.take(i as int)),
        decreases columns.len() - i,
    {
        let col = &columns[i];
        let ghost start = code@;
        code.push(
            Instruction::ColumnDef {
                index: col_reg,
                name: col.name.clone(),
                data_type: col.data_type.clone(),
            },
        );
        let mut j: usize = 0;
        while j < col.options.len()
            invariant
                j <= col.options.len(),
                col_reg == reg(1),
                code@ == start + seq![
                    Instruction::ColumnDef { index: reg(1), name: col.name, data_type: col.data_type },
                ] + col.options@.take(j as int).map_values(
                    |option| Instruction::AddColumnOption { index: reg(1), option: option },
                ),
            decreases col.options.len() - j,
        {
            code.push(Instruction::AddColumnOption { index: col_reg, option: col.options[j].clone() });
            j += 1;
            assert(code@ =~= start + seq![
                Instruction::ColumnDef { index: reg(1), name: col.name, data_type: col.data_type },
            ] + col.options@.take(j as int).map_values(
                |option| Instruction::AddColumnOption { index: reg(1), option: option },
            ));
        }
        code.push(Instruction::AddColumn { table_reg_index: table_reg, col_index: col_reg });
        assert(col.options@.take(j as int) =~= col.options@);
        assert(columns@.take(i + 1).drop_last() =~= columns@.take(i as int));
        assert(code@ =~= columns_code(columns@.take(i as int)) + column_code(*col));
        i += 1;
    }
    assert(columns@.take(i as int) =~= columns@);
    code
}

/// `CREATE TABLE`.
fn gen_create_table(if_not_exists: bool, name: &ObjectName, columns: &Vec<ColumnDef>) -> (r: Result<Vec<Instruction>, CodegenError>)
    ensures
        matches_code(r, create_table_code(if_not_exists, *name, columns@)),
{
    let table_reg_index = RegisterIndex::default();
    let mut code: Vec<Instruction> = Vec::new();
    code.push(Instruction::Empty { index: table_reg_index });
    let col_reg_index = table_reg_index.next_index();
    let mut column_instrs = gen_columns(columns, table_reg_index, col_reg_index);
    code.append(&mut column_instrs);
    let table = match resolve_table(name) {
        Ok(t) => t,
        Err(e) => return Err(e),
    };
    code.push(Instruction::NewTable { index: table_reg_index, name: table, exists_ok: if_not_exists });
    assert(code@ =~= seq![Instruction::Empty { index: reg(0) }] + columns_code(columns@) + seq![
        Instruction::NewTable { index: reg(0), name: table, exists_ok: if_not_exists },
    ]);
    Ok(code)
}

/// `CREATE SCHEMA`.
fn gen_create_schema(schema_name: &ObjectName, if_not_exists: bool) -> (r: Result<Vec<Instruction>, CodegenError>)
    ensures
        matches_code(r, create_schema_code(*schema_name, if_not_exists)),
{
    match SchemaRef::from_name(schema_name) {
        Ok(s) => {
            let mut code: Vec<Instruction> = Vec::new();
            code.push(Instruction::NewSchema { schema_name: s, exists_ok: if_not_exists });
            Ok(code)
        },
        Err(e) => Err(CodegenError::InvalidIdentifier(e)),
    }
}

/// One row of an insertion, built in register `row_reg`.
fn gen_row(insert_reg: RegisterIndex, row_reg: RegisterIndex, row: &Vec<SqlExpr>) -> (r: Result<Vec<Instruction>, CodegenError>)
    requires
        insert_reg == reg(1),
    ensures
        matches_code(r, row_code(row_reg, row@)),
{
    let ghost steps = add_value_steps(row_reg, row@);
    let mut code: Vec<Instruction> = Vec::new();
    code.push(Instruction::RowDef { insert_index: insert_reg, row_index: row_reg });
    let ghost head = code@;
    let mut i: usize = 0;
    while i < row.len()
        invariant
            i <= row.len(),
            steps == add_value_steps(row_reg, row@),
            run_steps(steps.take(i as int)) matches Ok(done) && code@ == head + done,
        decreases row.len() - i,
    {
        proof {
            lemma_run_steps_take_next(steps, i as int);
        }
        match lower_expr(&row[i]) {
            Ok(x) => {
                code.push(Instruction::AddValue { row_index: row_reg, expr: x });
            },
            Err(e) => {
                proof {
                    lemma_run_steps_stops_at_error(steps, i + 1);
                }
                return Err(e);
            },
        }
        i += 1;
        assert(code@ =~= head + run_steps(steps.take(i as int))->Ok_0);
    }
    assert(steps.take(i as int) =~= steps);
    Ok(code)
}

/// The rows of an insertion, the `i`-th built in register `i + 2`.
fn gen_rows(insert_reg: RegisterIndex, first_row_reg: RegisterIndex, rows: &Vec<Vec<SqlExpr>>) -> (r: Result<Vec<Instruction>, CodegenError>)
    requires
        insert_reg == reg(1),
        first_row_reg == reg(2),
        rows@.len() + 2 <= usize::MAX,
    ensures
        matches_code(r, run_steps(rows_steps(rows@))),
{
    let ghost steps = rows_steps(rows@);
    let mut code: Vec<Instruction> = Vec::new();
    let mut current_reg = first_row_reg;
    let mut i: usize = 0;
    while i < rows.len()
        invariant
            i <= rows.len(),
            rows@.len() + 2 <= usize::MAX,
            insert_reg == reg(1),
            current_reg == reg((i + 2) as nat),
            steps == rows_steps(rows@),
            run_steps(steps.take(i as int)) == Ok::<Seq<Instruction>, CodegenError>(code@),
        decreases rows.len() - i,
    {
        proof {
            lemma_run_steps_take_next(steps, i as int);
        }
        let row_reg = current_reg;
        current_reg = current_reg.next_index();
        match gen_row(insert_reg, row_reg, &rows[i]) {
            Ok(mut row_instrs) => {
                code.append(&mut row_instrs);
            },
            Err(e) => {
                proof {
                    lemma_run_steps_stops_at_error(steps, i + 1);
                }
                return Err(e);
            },
        }
        i += 1;
    }
    assert(steps.take(i as int) =~= steps);
    Ok(code)
}

/// `INSERT`.
fn gen_insert(table_name: &ObjectName, columns: &Vec<String>, source: &Query, sql: &String) -> (r: Result<Vec<Instruction>, CodegenError>)
    requires
        insert_registers(*source) <= usize::MAX,
    ensures
        matches_code(r, insert_code(*table_name, columns@, *source, *sql)),
{
    let table_reg_index = RegisterIndex::default();
    let table = match resolve_table(table_name) {
        Ok(t) => t,
        Err(e) => return Err(e),
    };
    let ghost t = table;
    let mut code: Vec<Instruction> = Vec::new();
    code.push(Instruction::Source { index: table_reg_index, name: table });
    let insert_reg_index = table_reg_index.next_index();
    code.push(Instruction::InsertDef { table_reg_index, index: insert_reg_index });
    let current_reg = insert_reg_index.next_index();
    let ghost head = code@;
    let mut i: usize = 0;
    while i < columns.len()
        invariant
            i <= columns.len(),
            insert_reg_index == reg(1),
            code@ == head + columns@.take(i as int).map_values(
                |c: String| Instruction::ColumnInsertDef { insert_index: reg(1), col_name: c },
            ),
        decreases columns.len() - i,
    {
        code.push(Instruction::ColumnInsertDef { insert_index: insert_reg_index, col_name: columns[i].clone() });
        i += 1;
        assert(code@ =~= head + columns@.take(i as int).map_values(
            |c: String| Instruction::ColumnInsertDef { insert_index: reg(1), col_name: c },
        ));
    }
    assert(columns@.take(i as int) =~= columns@);
    assert(code@ =~= insert_head(t, columns@));
    match &source.body {
        SetExpr::Values(values) => {
            match gen_rows(insert_reg_index, current_reg, &values.rows) {
                Ok(mut rows) => {
                    let ghost rows_code = rows@;
                    code.append(&mut rows);
                    code.push(Instruction::Insert { index: insert_reg_index });
                    assert(code@ =~= insert_head(t, columns@) + rows_code + seq![
                        Instruction::Insert { index: reg(1) },
                    ]);
                    Ok(code)
                },
                Err(e) => Err(e),
            }
        },
        _ => {
            return Err(
                CodegenError::UnsupportedStatementForm(
                    "Only insert with values is supported.",
                    sql.clone(),
                ),
            );
        },
    }
}

/// The table that a `SELECT` reads, put in register `table_reg`.
fn gen_from(select: &Select, table_reg: RegisterIndex) -> (r: Result<Vec<Instruction>, CodegenError>)
    requires
        table_reg == reg(0),
    ensures
        matches_code(r, from_code(*select)),
{
    if select.from.len() != 1 {
        return Err(
            CodegenError::UnsupportedStatementForm(
                "Only select from a single table is supported for now",
                select.sql.clone(),
            ),
        );
    }
    let from = &select.from[0];
    if from.joins.len() != 0 {
        return Err(
            CodegenError::UnsupportedStatementForm("Joins are not supported yet", select.sql.clone()),
        );
    }
    match &from.relation {
        TableFactor::Table { name } => match resolve_table(name) {
            Ok(t) => {
                let mut code: Vec<Instruction> = Vec::new();
                code.push(Instruction::Source { index: table_reg, name: t });
                Ok(code)
            },
            Err(e) => Err(e),
        },
        TableFactor::Derived { sql } => Err(
            CodegenError::UnsupportedStatementForm("Derived tables are not supportd yet", sql.clone()),
        ),
        TableFactor::NestedJoin { sql } => Err(
            CodegenError::UnsupportedStatementForm("Nested JOINs are not supportd yet", sql.clone()),
        ),
        TableFactor::TableFunction { sql } => Err(
            CodegenError::UnsupportedStatementForm(
                "Table functions are not supportd yet",
                sql.clone(),
            ),
        ),
        TableFactor::Unnest { sql } => Err(
            CodegenError::UnsupportedStatementForm("UNNEST are not supportd yet", sql.clone()),
        ),
    }
}

/// A filter of the table in register `table_reg`, where there is one.
fn gen_filter(e: &Option<SqlExpr>, table_reg: RegisterIndex) -> (r: Result<Vec<Instruction>, CodegenError>)
    requires
        table_reg == reg(0),
    ensures
        matches_code(r, filter_code(*e)),
{
    let mut code: Vec<Instruction> = Vec::new();
    match e {
        None => Ok(code),
        Some(e) => match lower_expr(e) {
            Ok(x) => {
                code.push(Instruction::Filter { index: table_reg, expr: x });
                Ok(code)
            },
            Err(err) => Err(err),
        },
    }
}

/// `GROUP BY` of the table in register `table_reg`.
fn gen_group_by(exprs: &Vec<SqlExpr>, table_reg: RegisterIndex) -> (r: Result<Vec<Instruction>, CodegenError>)
    requires
        table_reg == reg(0),
    ensures
        matches_code(r, run_steps(group_by_steps(exprs@))),
{
    let ghost steps = group_by_steps(exprs@);
    let mut code: Vec<Instruction> = Vec::new();
    let mut i: usize = 0;
    while i < exprs.len()
        invariant
            i <= exprs.len(),
            table_reg == reg(0),
            steps == group_by_steps(exprs@),
            run_steps(steps.take(i as int)) == Ok::<Seq<Instruction>, CodegenError>(code@),
        decreases exprs.len() - i,
    {
        proof {
            lemma_run_steps_take_next(steps, i as int);
        }
        match lower_expr(&exprs[i]) {
            Ok(x) => {
                let ghost before = code@;
                code.push(Instruction::GroupBy { index: table_reg, expr: x });
                assert(code@ =~= before + seq![Instruction::GroupBy { index: reg(0), expr: x }]);
            },
            Err(e) => {
                proof {
                    lemma_run_steps_stops_at_error(steps, i + 1);
                }
                return Err(e);
            },
        }
        i += 1;
    }
    assert(steps.take(i as int) =~= steps);
    Ok(code)
}

/// One item of a `SELECT` list, projected from `input` into `output`.
fn gen_project(item: &SelectItem, input: RegisterIndex, output: RegisterIndex) -> (r: Result<Instruction, CodegenError>)
    requires
        input == reg(0),
        output == reg(1),
    ensures
        match r {
            Ok(instr) => project_step(*item) == Ok::<Seq<Instruction>, CodegenError>(seq![instr]),
            Err(e) => project_step(*item) == Err::<Seq<Instruction>, CodegenError>(e),
        },
{
    let expr = match item {
        SelectItem::UnnamedExpr(e) => match lower_expr(e) {
            Ok(x) => x,
            Err(err) => return Err(err),
        },
        SelectItem::ExprWithAlias { expr, .. } => match lower_expr(expr) {
            Ok(x) => x,
            Err(err) => return Err(err),
        },
        SelectItem::QualifiedWildcard(_) => Expr::Wildcard,
        SelectItem::Wildcard => Expr::Wildcard,
    };
    let alias = match item {
        SelectItem::UnnamedExpr(_) => None,
        SelectItem::ExprWithAlias { alias, .. } => Some(alias.clone()),
        SelectItem::QualifiedWildcard(name) => {
            return Err(
                CodegenError::UnsupportedStatementForm(
                    "Qualified wildcards are not supported yet",
                    name.sql.clone(),
                ),
            );
        },
        SelectItem::Wildcard => None,
    };
    Ok(Instruction::Project { input, output, expr, alias })
}

/// The projection of a `SELECT` from `input` into a new table in `output`.
fn gen_projection(select: &Select, input: RegisterIndex, output: RegisterIndex) -> (r: Result<Vec<Instruction>, CodegenError>)
    requires
        input == reg(0),
        output == reg(1),
    ensures
        matches_code(r, projection_code(*select)),
{
    let mut code: Vec<Instruction> = Vec::new();
    if select.projection.len() == 0 {
        return Ok(code);
    }
    code.push(Instruction::Empty { index: output });
    let ghost head = code@;
    let ghost steps = project_steps(select.projection@);
    let mut i: usize = 0;
    while i < select.projection.len()
        invariant
            i <= select.projection.len(),
            input == reg(0),
            output == reg(1),
            steps == project_steps(select.projection@),
            run_steps(steps.take(i as int)) matches Ok(done) && code@ == head + done,
        decreases select.projection.len() - i,
    {
        proof {
            lemma_run_steps_take_next(steps, i as int);
        }
        match gen_project(&select.projection[i], input, output) {
            Ok(instr) => {
                code.push(instr);
            },
            Err(e) => {
                proof {
                    lemma_run_steps_stops_at_error(steps, i + 1);
                }
                return Err(e);
            },
        }
        i += 1;
        assert(code@ =~= head + run_steps(steps.take(i as int))->Ok_0);
    }
    assert(steps.take(i as int) =~= steps);
    if select.distinct {
        return Err(
            CodegenError::UnsupportedStatementForm("DISTINCT is not supported yet", select.sql.clone()),
        );
    }
    assert(code@ =~= code@ + Seq::<Instruction>::empty());
    Ok(code)
}

/// A `SELECT` that reads register `table_reg` and projects into `output_reg`.
fn gen_select(select: &Select, table_reg: RegisterIndex, output_reg: RegisterIndex) -> (r: Result<Vec<Instruction>, CodegenError>)
    requires
        table_reg == reg(0),
        output_reg == reg(1),
    ensures
        matches_code(r, select_code(*select)),
{
    let mut code = match gen_from(select, table_reg) {
        Ok(code) => code,
        Err(e) => return Err(e),
    };
    match gen_filter(&select.selection, table_reg) {
        Ok(mut more) => code.append(&mut more),
        Err(e) => return Err(e),
    }
    match gen_group_by(&select.group_by, table_reg) {
        Ok(mut more) => code.append(&mut more),
        Err(e) => return Err(e),
    }
    match gen_filter(&select.having, table_reg) {
        Ok(mut more) => code.append(&mut more),
        Err(e) => return Err(e),
    }
    match gen_projection(select, table_reg, output_reg) {
        Ok(mut more) => code.append(&mut more),
        Err(e) => return Err(e),
    }
    Ok(code)
}

/// The body of a query.
fn gen_body(query: &Query, table_reg: RegisterIndex, output_reg: RegisterIndex) -> (r: Result<Vec<Instruction>, CodegenError>)
    requires
        table_reg == reg(0),
        output_reg == reg(1),
    ensures
        matches_code(r, body_code(*query)),
{
    match &query.body {
        SetExpr::Select(select) => gen_select(select, table_reg, output_reg),
        SetExpr::Values(values) => {
            if values.rows.len() == 1 && values.rows[0].len() == 1 {
                match lower_expr(&values.rows[0][0]) {
                    Ok(expr) => {
                        let mut code: Vec<Instruction> = Vec::new();
                        code.push(Instruction::Expr { index: table_reg, expr });
                        Ok(code)
                    },
                    Err(e) => Err(e),
                }
            } else {
                Err(
                    CodegenError::UnsupportedStatementForm(
                        "Selecting more than one value is not supported yet",
                        values.sql.clone(),
                    ),
                )
            }
        },
        SetExpr::Query { sql } => Err(
            CodegenError::UnsupportedStatementForm("Query within a query not supported yet", sql.clone()),
        ),
        SetExpr::SetOperation => Err(
            CodegenError::UnsupportedStatementForm(
                "Set operations are not supported yet",
                query.sql.clone(),
            ),
        ),
        SetExpr::Insert { sql } => Err(
            CodegenError::UnsupportedStatementForm("Insert within query not supported yet", sql.clone()),
        ),
    }
}

/// The `LIMIT` of a query, on the table in register `table_reg`.
fn gen_limit(limit: &Option<SqlExpr>, table_reg: RegisterIndex) -> (r: Result<Vec<Instruction>, CodegenError>)
    ensures
        matches_code(r, limit_code(table_reg, *limit)),
{
    let mut code: Vec<Instruction> = Vec::new();
    match limit {
        None => Ok(code),
        Some(e) => match &e.literal {
            Some(Ok(Value::Int64(n))) => {
                code.push(Instruction::Limit { index: table_reg, limit: *n as u64 });
                Ok(code)
            },
            Some(Ok(_)) => Err(
                CodegenError::Expr(
                    ExprError::Value(
                        ValueError {
                            reason: "Only constant integer LIMITs are supported",
                            value: e.sql.clone(),
                        },
                    ),
                ),
            ),
            Some(Err(ve)) => Err(CodegenError::from(ve.clone())),
            None => Err(
                CodegenError::Expr(
                    ExprError::Expr {
                        reason: "Only constant integer LIMITs are supported",
                        expr: e.sql.clone(),
                    },
                ),
            ),
        },
    }
}

/// `ORDER BY` of the table in register `table_reg`.
fn gen_order_by(items: &Vec<OrderByExpr>, table_reg: RegisterIndex) -> (r: Result<Vec<Instruction>, CodegenError>)
    ensures
        matches_code(r, run_steps(order_steps(table_reg, items@))),
{
    let ghost steps = order_steps(table_reg, items@);
    let mut code: Vec<Instruction> = Vec::new();
    let mut i: usize = 0;
    while i < items.len()
        invariant
            i <= items.len(),
            steps == order_steps(table_reg, items@),
            run_steps(steps.take(i as int)) == Ok::<Seq<Instruction>, CodegenError>(code@),
        decreases items.len() - i,
    {
        proof {
            lemma_run_steps_take_next(steps, i as int);
        }
        let item = &items[i];
        match lower_expr(&item.expr) {
            Ok(x) => {
                let ascending = match item.asc {
                    Some(a) => a,
                    None => true,
                };
                let ghost before = code@;
                code.push(Instruction::Order { index: table_reg, expr: x, ascending });
                assert(code@ =~= before + seq![
                    Instruction::Order { index: table_reg, expr: x, ascending },
                ]);
            },
            Err(e) => {
                proof {
                    lemma_run_steps_stops_at_error(steps, i + 1);
                }
                return Err(e);
            },
        }
        i += 1;
    }
    assert(steps.take(i as int) =~= steps);
    Ok(code)
}

/// A query.
fn gen_query(query: &Query) -> (r: Result<Vec<Instruction>, CodegenError>)
    ensures
        matches_code(r, query_code(*query)),
{
    let table_reg_index = RegisterIndex::default();
    let output_reg_index = table_reg_index.next_index();
    let mut code = match gen_body(query, table_reg_index, output_reg_index) {
        Ok(code) => code,
        Err(e) => return Err(e),
    };
    // A projection puts the query's result in a table of its own.
    let result_reg_index = match &query.body {
        SetExpr::Select(select) => if select.projection.len() != 0 {
            output_reg_index
        } else {
            table_reg_index
        },
        _ => table_reg_index,
    };
    match gen_limit(&query.limit, result_reg_index) {
        Ok(mut more) => code.append(&mut more),
        Err(e) => return Err(e),
    }
    match gen_order_by(&query.order_by, result_reg_index) {
        Ok(mut more) => code.append(&mut more),
        Err(e) => return Err(e),
    }
    let ghost before = code@;
    code.push(Instruction::Return { index: result_reg_index });
    assert(code@ =~= before + seq![Instruction::Return { index: result_reg(*query) }]);
    Ok(code)
}

/// Generates intermediate code from the statement tree.
pub fn codegen(ast: &Statement) -> (result: Result<IntermediateCode, CodegenError>)
    requires
        registers_needed(*ast) <= usize::MAX,
    ensures
        match result {
            Ok(ic) => statement_code(*ast) == Ok::<Seq<Instruction>, CodegenError>(ic.instrs@),
            Err(e) => statement_code(*ast) == Err::<Seq<Instruction>, CodegenError>(e),
        },
{
    let instrs = match ast {
        Statement::CreateTable { if_not_exists, name, columns } => gen_create_table(
            *if_not_exists,
            name,
            columns,
        ),
        Statement::Insert { table_name, columns, source, sql } => gen_insert(
            table_name,
            columns,
            source,
            sql,
        ),
        Statement::Query(query) => gen_query(query),
        Statement::CreateSchema { schema_name, if_not_exists } => gen_create_schema(
            schema_name,
            *if_not_exists,
        ),
        Statement::Other { sql } => Err(CodegenError::UnsupportedStatement(sql.clone())),
    };
    match instrs {
        Ok(instrs) => Ok(IntermediateCode { instrs }),
        Err(e) => Err(e),
    }
}

} // verus!
