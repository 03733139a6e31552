//! Values that intermediate code computes with.

use vstd::prelude::*;

use crate::refusal::{refusal_message, refusal_text};

verus! {

/// A value held in a table cell or produced by an expression.
#[derive(Debug, PartialEq)]
pub enum Value {
    Null,
    Bool(bool),
    Int64(i64),
    String(String),
}

impl Clone for Value {
    fn clone(&self) -> (copy: Value)
        ensures
            copy == *self,
    {
        match self {
            Value::Null => Value::Null,
            Value::Bool(b) => Value::Bool(*b),
            Value::Int64(n) => Value::Int64(*n),
            Value::String(s) => Value::String(s.clone()),
        }
    }
}

/// A SQL literal that cannot be used as a [`Value`] where it stands.
#[derive(Debug, PartialEq)]
pub struct ValueError {
    /// Why the literal was refused.
    pub reason: &'static str,
    /// The literal as written in the SQL text.
    pub value: String,
}

impl Clone for ValueError {
    fn clone(&self) -> (copy: ValueError)
        ensures
            copy == *self,
    {
        ValueError { reason: self.reason, value: self.value.clone() }
    }
}

impl ValueError {
    /// A human-readable description of the error.
    pub fn message(&self) -> (text: String)
        ensures
            text@ == refusal_text(self.reason@, self.value@),
    {
        refusal_message(self.reason, self.value.as_str())
    }
}

} // verus!
