//! A string value.

use crate::ast::types::Type;
use vstd::prelude::*;

verus! {

/// A string value.
#[derive(Debug)]
pub struct Str {
    pub val: String,
}

impl Str {
    pub fn new(val: String) -> (o: Self)
        ensures
            o.val == val,
    {
        Self { val }
    }

    pub fn get_type(&self) -> (t: Type)
        ensures
            t == Type::String,
    {
        Type::String
    }
}

} // verus!
