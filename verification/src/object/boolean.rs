//! A boolean value.

use crate::ast::types::Type;
use vstd::prelude::*;

verus! {

/// A boolean value.
#[derive(Debug)]
pub struct Boolean {
    pub val: bool,
}

impl Boolean {
    pub fn new(val: bool) -> (o: Self)
        ensures
            o.val == val,
    {
        Self { val }
    }

    pub fn get_type(&self) -> (t: Type)
        ensures
            t == Type::Bool,
    {
        Type::Bool
    }
}

} // verus!
