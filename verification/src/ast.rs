//! The SQL statement tree that code generation reads.
//!
//! Column types and column options are sqlparser's own types, which the
//! generated code carries unchanged. Every other part of the tree holds plain
//! values: names, the SQL text of the parts that error reports quote, and, for
//! each expression, the outcome of lowering it into an IC [`Expr`].

use vstd::prelude::*;

use crate::expr::{Expr, ExprError};
use crate::value::{Value, ValueError};

verus! {

/// sqlparser's `DataType`, the type of a column, carried unchanged.
#[verifier::external_type_specification]
#[verifier::external_body]
pub struct ExDataType(sqlparser::ast::DataType);

/// sqlparser's `ColumnOptionDef`, an option of a column, carried unchanged.
#[verifier::external_type_specification]
#[verifier::external_body]
pub struct ExColumnOptionDef(sqlparser::ast::ColumnOptionDef);

/// `<sqlparser::ast::DataType as Clone>::clone`, which sqlparser derives:
/// the copy equals the original.
pub assume_specification[ <sqlparser::ast::DataType as Clone>::clone ](
    data_type: &sqlparser::ast::DataType,
) -> (copy: sqlparser::ast::DataType)
    ensures
        copy == *data_type,
;

/// `<sqlparser::ast::ColumnOptionDef as Clone>::clone`, which sqlparser
/// derives: the copy equals the original.
pub assume_specification[ <sqlparser::ast::ColumnOptionDef as Clone>::clone ](
    option: &sqlparser::ast::ColumnOptionDef,
) -> (copy: sqlparser::ast::ColumnOptionDef)
    ensures
        copy == *option,
;

/// A possibly qualified name, such as `schema.table`.
#[derive(Debug)]
pub struct ObjectName {
    /// The parts of the name, without quotes, in order.
    pub parts: Vec<String>,
    /// The name as written in the SQL text.
    pub sql: String,
}

/// A SQL expression.
#[derive(Debug)]
pub struct SqlExpr {
    /// The expression as written in the SQL text.
    pub sql: String,
    /// Where the expression is a literal, the literal read as a [`Value`].
    pub literal: Option<Result<Value, ValueError>>,
    /// The expression lowered into an IC expression.
    pub lowered: Result<Expr, ExprError>,
}

/// A column in `CREATE TABLE`.
#[derive(Debug)]
pub struct ColumnDef {
    pub name: String,
    pub data_type: sqlparser::ast::DataType,
    pub options: Vec<sqlparser::ast::ColumnOptionDef>,
}

/// An item of `ORDER BY`.
#[derive(Debug)]
pub struct OrderByExpr {
    pub expr: SqlExpr,
    /// `Some(true)` for `ASC`, `Some(false)` for `DESC`, `None` where neither is written.
    pub asc: Option<bool>,
}

/// A `JOIN` clause.
#[derive(Debug)]
pub struct Join {
    /// The clause as written in the SQL text.
    pub sql: String,
}

/// What a `FROM` item reads.
#[derive(Debug)]
pub enum TableFactor {
    /// A named table.
    Table { name: ObjectName },
    /// A subquery in `FROM`.
    Derived { sql: String },
    /// A parenthesized join.
    NestedJoin { sql: String },
    /// A table-valued function.
    TableFunction { sql: String },
    /// `UNNEST(..)`.
    Unnest { sql: String },
}

/// A `FROM` item with the joins that follow it.
#[derive(Debug)]
pub struct TableWithJoins {
    pub relation: TableFactor,
    pub joins: Vec<Join>,
}

/// An item of a `SELECT` list.
#[derive(Debug)]
pub enum SelectItem {
    /// An expression without an alias.
    UnnamedExpr(SqlExpr),
    /// `expr AS alias`.
    ExprWithAlias { expr: SqlExpr, alias: String },
    /// `name.*`.
    QualifiedWildcard(ObjectName),
    /// `*`.
    Wildcard,
}

/// A `SELECT` block.
#[derive(Debug)]
pub struct Select {
    pub distinct: bool,
    pub projection: Vec<SelectItem>,
    pub from: Vec<TableWithJoins>,
    pub selection: Option<SqlExpr>,
    pub group_by: Vec<SqlExpr>,
    pub having: Option<SqlExpr>,
    /// The block as written in the SQL text.
    pub sql: String,
}

/// A `VALUES` list.
#[derive(Debug)]
pub struct Values {
    pub rows: Vec<Vec<SqlExpr>>,
    /// The list as written in the SQL text.
    pub sql: String,
}

/// The body of a query.
#[derive(Debug)]
pub enum SetExpr {
    Select(Box<Select>),
    /// A parenthesized query.
    Query { sql: String },
    /// `UNION`, `EXCEPT` or `INTERSECT`.
    SetOperation,
    Values(Values),
    /// An `INSERT` used as a query.
    Insert { sql: String },
}

/// A query.
#[derive(Debug)]
pub struct Query {
    pub body: SetExpr,
    pub limit: Option<SqlExpr>,
    pub order_by: Vec<OrderByExpr>,
    /// The query as written in the SQL text.
    pub sql: String,
}

/// A SQL statement.
#[derive(Debug)]
pub enum Statement {
    /// `CREATE TABLE [IF NOT EXISTS] name (columns)`.
    CreateTable { if_not_exists: bool, name: ObjectName, columns: Vec<ColumnDef> },
    /// `INSERT INTO table_name [(columns)] source`.
    Insert {
        table_name: ObjectName,
        columns: Vec<String>,
        source: Box<Query>,
        /// The statement as written in the SQL text.
        sql: String,
    },
    /// A query.
    Query(Box<Query>),
    /// `CREATE SCHEMA [IF NOT EXISTS] schema_name`.
    CreateSchema { schema_name: ObjectName, if_not_exists: bool },
    /// Any other statement.
    Other {
        /// The statement as written in the SQL text.
        sql: String,
    },
}

} // verus!
