//! A 64-bit signed integer value.

use crate::ast::types::Type;
use vstd::prelude::*;

verus! {

/// A 64-bit signed integer value.
#[derive(Debug)]
pub struct Integer {
    pub val: i64,
}

impl Integer {
    pub fn new(val: i64) -> (o: Self)
        ensures
            o.val == val,
    {
        Self { val }
    }

    pub fn get_type(&self) -> (t: Type)
        ensures
            t == Type::Int,
    {
        Type::Int
    }
}

} // verus!
