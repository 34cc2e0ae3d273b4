//! An integer literal.

use crate::ast::types::Type;
use vstd::prelude::*;

verus! {

/// An integer literal.
#[derive(Debug)]
pub struct IntExpr {
    pub value: i64,
}

impl IntExpr {
    pub fn new(value: i64) -> (e: Self)
        ensures
            e.value == value,
    {
        Self { value }
    }

    pub fn get_type(&self) -> (t: Type)
        ensures
            t == Type::Int,
    {
        Type::Int
    }
}

} // verus!
