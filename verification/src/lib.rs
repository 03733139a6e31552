//! Generation of intermediate code (IC) from a SQL statement tree.
//!
//! The statement tree ([`ast`]) is lowered into a flat list of IC
//! instructions ([`ic`]) that work on numbered registers ([`vm`]).

pub mod ast;
pub mod codegen;
pub mod contents;
pub mod expr;
pub mod ic;
pub mod laws;
pub mod refusal;
pub mod identifier;
pub mod value;
pub mod vm;
