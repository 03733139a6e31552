//! Expressions of intermediate code.

use vstd::prelude::*;

use crate::refusal::{refusal_message, refusal_text};
use crate::value::{Value, ValueError};

verus! {

/// An expression that an instruction evaluates.
#[derive(Debug, PartialEq)]
pub enum Expr {
    /// A constant.
    Value(Value),
    /// The column of the given name.
    ColumnRef(String),
    /// Every column (`*`).
    Wildcard,
}

impl Clone for Expr {
    fn clone(&self) -> (copy: Expr)
        ensures
            copy == *self,
    {
        match self {
            Expr::Value(v) => Expr::Value(v.clone()),
            Expr::ColumnRef(name) => Expr::ColumnRef(name.clone()),
            Expr::Wildcard => Expr::Wildcard,
        }
    }
}

/// A SQL expression that cannot be lowered into an [`Expr`].
#[derive(Debug, PartialEq)]
pub enum ExprError {
    /// A literal in the expression was refused.
    Value(ValueError),
    /// The expression was refused.
    Expr {
        /// Why it was refused.
        reason: &'static str,
        /// The expression as written in the SQL text.
        expr: String,
    },
}

impl Clone for ExprError {
    fn clone(&self) -> (copy: ExprError)
        ensures
            copy == *self,
    {
        match self {
            ExprError::Value(e) => ExprError::Value(e.clone()),
            ExprError::Expr { reason, expr } => ExprError::Expr { reason: *reason, expr: expr.clone() },
        }
    }
}

impl From<ValueError> for ExprError {
    fn from(e: ValueError) -> (wrapped: ExprError)
        ensures
            wrapped == ExprError::Value(e),
    {
        ExprError::Value(e)
    }
}

impl vstd::std_specs::convert::FromSpecImpl<ValueError> for ExprError {
    open spec fn obeys_from_spec() -> bool {
        true
    }

    open spec fn from_spec(e: ValueError) -> ExprError {
        ExprError::Value(e)
    }
}

impl ExprError {
    /// The text of [`ExprError::message`].
    pub open spec fn message_text(self) -> Seq<char> {
        match self {
            ExprError::Value(e) => refusal_text(e.reason@, e.value@),
            ExprError::Expr { reason, expr } => refusal_text(reason@, expr@),
        }
    }

    /// A human-readable description of the error.
    pub fn message(&self) -> (text: String)
        ensures
            text@ == self.message_text(),
    {
        match self {
            ExprError::Value(e) => e.message(),
            ExprError::Expr { reason, expr } => refusal_message(reason, expr.as_str()),
        }
    }
}

} // verus!
