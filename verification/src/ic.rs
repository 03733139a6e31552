//! Intermediate code: the instructions that a statement is lowered into.

use vstd::prelude::*;

use crate::expr::Expr;
use crate::identifier::{SchemaRef, TableRef};
use crate::vm::RegisterIndex;

verus! {

/// One step of intermediate code.
#[derive(Debug, PartialEq)]
pub enum Instruction {
    /// Put an empty table in register `index`.
    Empty { index: RegisterIndex },
    /// Put a column definition in register `index`.
    ColumnDef { index: RegisterIndex, name: String, data_type: sqlparser::ast::DataType },
    /// Add an option to the column definition in register `index`.
    AddColumnOption { index: RegisterIndex, option: sqlparser::ast::ColumnOptionDef },
    /// Add the column definition in register `col_index` to the table in
    /// register `table_reg_index`.
    AddColumn { table_reg_index: RegisterIndex, col_index: RegisterIndex },
    /// Create a table named `name` with the columns of the table in register `index`.
    NewTable { index: RegisterIndex, name: TableRef, exists_ok: bool },
    /// Create a schema.
    NewSchema { schema_name: SchemaRef, exists_ok: bool },
    /// Put the table `name` in register `index`.
    Source { index: RegisterIndex, name: TableRef },
    /// Start, in register `index`, an insertion into the table in register
    /// `table_reg_index`.
    InsertDef { table_reg_index: RegisterIndex, index: RegisterIndex },
    /// Name a column that the insertion in register `insert_index` fills.
    ColumnInsertDef { insert_index: RegisterIndex, col_name: String },
    /// Start, in register `row_index`, a row of the insertion in register `insert_index`.
    RowDef { insert_index: RegisterIndex, row_index: RegisterIndex },
    /// Add a value to the row in register `row_index`.
    AddValue { row_index: RegisterIndex, expr: Expr },
    /// Carry out the insertion in register `index`.
    Insert { index: RegisterIndex },
    /// Keep the rows of the table in register `index` for which `expr` holds.
    Filter { index: RegisterIndex, expr: Expr },
    /// Group the rows of the table in register `index` by `expr`.
    GroupBy { index: RegisterIndex, expr: Expr },
    /// Add to the table in register `output` a column computed by `expr` from
    /// the table in register `input`.
    Project { input: RegisterIndex, output: RegisterIndex, expr: Expr, alias: Option<String> },
    /// Put the value of `expr` in register `index`.
    Expr { index: RegisterIndex, expr: Expr },
    /// Keep the first `limit` rows of the table in register `index`.
    Limit { index: RegisterIndex, limit: u64 },
    /// Sort the table in register `index` by `expr`.
    Order { index: RegisterIndex, expr: Expr, ascending: bool },
    /// Return the value in register `index`.
    Return { index: RegisterIndex },
}

/// The instructions of one statement, in order.
#[derive(Debug, PartialEq)]
pub struct IntermediateCode {
    pub instrs: Vec<Instruction>,
}

impl Instruction {
    /// Whether the instruction reads register `r`.
    pub open spec fn reads(self, r: RegisterIndex) -> bool {
        match self {
            Instruction::Empty { .. } => false,
            Instruction::ColumnDef { .. } => false,
            Instruction::AddColumnOption { index, .. } => r == index,
            Instruction::AddColumn { table_reg_index, col_index } => r == table_reg_index || r
                == col_index,
            Instruction::NewTable { index, .. } => r == index,
            Instruction::NewSchema { .. } => false,
            Instruction::Source { .. } => false,
            Instruction::InsertDef { table_reg_index, .. } => r == table_reg_index,
            Instruction::ColumnInsertDef { insert_index, .. } => r == insert_index,
            Instruction::RowDef { insert_index, .. } => r == insert_index,
            Instruction::AddValue { row_index, .. } => r == row_index,
            Instruction::Insert { index } => r == index,
            Instruction::Filter { index, .. } => r == index,
            Instruction::GroupBy { index, .. } => r == index,
            Instruction::Project { input, output, .. } => r == input || r == output,
            Instruction::Expr { .. } => false,
            Instruction::Limit { index, .. } => r == index,
            Instruction::Order { index, .. } => r == index,
            Instruction::Return { index } => r == index,
        }
    }

    /// Whether the instruction puts a new value in register `r`.
    pub open spec fn writes(self, r: RegisterIndex) -> bool {
        match self {
            Instruction::Empty { index } => r == index,
            Instruction::ColumnDef { index, .. } => r == index,
            Instruction::Source { index, .. } => r == index,
            Instruction::InsertDef { index, .. } => r == index,
            Instruction::RowDef { row_index, .. } => r == row_index,
            Instruction::Expr { index, .. } => r == index,
            _ => false,
        }
    }
}

impl Instruction {
    /// Whether the instruction reads or writes register `r`.
    pub open spec fn mentions(self, r: RegisterIndex) -> bool {
        self.reads(r) || self.writes(r)
    }
}

impl Instruction {
    /// Whether the instruction creates the value of register `r`: a table, an
    /// insertion, a row, or the value of an expression. A column definition,
    /// which each column of a table builds anew in one register, is not counted.
    pub open spec fn creates(self, r: RegisterIndex) -> bool {
        match self {
            Instruction::Empty { index } => r == index,
            Instruction::Source { index, .. } => r == index,
            Instruction::InsertDef { index, .. } => r == index,
            Instruction::RowDef { row_index, .. } => r == row_index,
            Instruction::Expr { index, .. } => r == index,
            _ => false,
        }
    }
}

/// Whether no two instructions of `code` create the same register.
pub open spec fn creates_distinct_registers(code: Seq<Instruction>) -> bool {
    forall|i: int, j: int, r: RegisterIndex|
        0 <= i < code.len() && 0 <= j < code.len() && #[trigger] code[i].creates(r)
            && #[trigger] code[j].creates(r) ==> i == j
}

/// Whether every register that `code` reads or writes is numbered below `count`.
pub open spec fn registers_below(count: nat, code: Seq<Instruction>) -> bool {
    forall|i: int, r: RegisterIndex| 0 <= i < code.len() && #[trigger] code[i].mentions(r) ==> r.0 < count
}

/// Whether some instruction of `code` writes register `r`.
pub open spec fn written_by(code: Seq<Instruction>, r: RegisterIndex) -> bool {
    exists|j: int| 0 <= j < code.len() && #[trigger] code[j].writes(r)
}

/// Whether every register that an instruction of `code` reads is in `ready`
/// or written by an instruction before it.
pub open spec fn reads_after_writes(ready: Set<RegisterIndex>, code: Seq<Instruction>) -> bool {
    forall|i: int, r: RegisterIndex|
        0 <= i < code.len() && #[trigger] code[i].reads(r) ==> ready.contains(r) || written_by(
            code.take(i),
            r,
        )
}

/// Whether every register that `code` reads is written before it is read.
pub open spec fn registers_written_before_read(code: Seq<Instruction>) -> bool {
    reads_after_writes(Set::empty(), code)
}

} // verus!
