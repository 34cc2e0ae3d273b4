//! A boolean literal.

use crate::ast::types::Type;
use vstd::prelude::*;

verus! {

/// A boolean literal.
#[derive(Debug)]
pub struct BoolExpr {
    pub value: bool,
}

impl BoolExpr {
    pub fn new(value: bool) -> (e: Self)
        ensures
            e.value == value,
    {
        Self { value }
    }

    pub fn get_type(&self) -> (t: Type)
        ensures
            t == Type::Bool,
    {
        Type::Bool
    }
}

} // verus!
