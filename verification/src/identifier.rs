//! Names of schemas and tables.

use vstd::prelude::*;

use crate::ast::ObjectName;
use crate::refusal::{refusal_message, refusal_text};

verus! {

/// The name of a schema.
#[derive(Debug, PartialEq)]
pub struct SchemaRef(pub String);

/// The name of a table, optionally qualified by its schema.
#[derive(Debug, PartialEq)]
pub struct TableRef {
    pub schema_name: Option<String>,
    pub table_name: String,
}

/// A name that does not denote a schema or a table.
#[derive(Debug, PartialEq)]
pub struct IdentifierError {
    /// Why the name was refused.
    pub reason: &'static str,
    /// The name as written in the SQL text.
    pub name: String,
}

impl IdentifierError {
    /// A human-readable description of the error.
    pub fn message(&self) -> (text: String)
        ensures
            text@ == refusal_text(self.reason@, self.name@),
    {
        refusal_message(self.reason, self.name.as_str())
    }
}

/// The schema that `name` denotes: a name of exactly one part.
pub open spec fn spec_schema_ref(name: ObjectName) -> Result<SchemaRef, IdentifierError> {
    if name.parts@.len() == 1 {
        Ok(SchemaRef(name.parts@[0]))
    } else {
        Err(IdentifierError { reason: "A schema name has exactly one part", name: name.sql })
    }
}

/// The table that `name` denotes: `table` or `schema.table`.
pub open spec fn spec_table_ref(name: ObjectName) -> Result<TableRef, IdentifierError> {
    if name.parts@.len() == 1 {
        Ok(TableRef { schema_name: None, table_name: name.parts@[0] })
    } else if name.parts@.len() == 2 {
        Ok(TableRef { schema_name: Some(name.parts@[0]), table_name: name.parts@[1] })
    } else {
        Err(
            IdentifierError {
                reason: "A table name has one part or two (schema and table)",
                name: name.sql,
            },
        )
    }
}

impl SchemaRef {
    /// Resolves `name` as a schema name.
    pub fn from_name(name: &ObjectName) -> (schema: Result<SchemaRef, IdentifierError>)
        ensures
            schema == spec_schema_ref(*name),
    {
        if name.parts.len() == 1 {
            Ok(SchemaRef(name.parts[0].clone()))
        } else {
            Err(IdentifierError { reason: "A schema name has exactly one part", name: name.sql.clone() })
        }
    }
}

impl TableRef {
    /// Resolves `name` as a table name.
    pub fn from_name(name: &ObjectName) -> (table: Result<TableRef, IdentifierError>)
        ensures
            table == spec_table_ref(*name),
    {
        if name.parts.len() == 1 {
            Ok(TableRef { schema_name: None, table_name: name.parts[0].clone() })
        } else if name.parts.len() == 2 {
            Ok(
                TableRef {
                    schema_name: Some(name.parts[0].clone()),
                    table_name: name.parts[1].clone(),
                },
            )
        } else {
            Err(
                IdentifierError {
                    reason: "A table name has one part or two (schema and table)",
                    name: name.sql.clone(),
                },
            )
        }
    }
}

} // verus!
