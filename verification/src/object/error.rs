//! A runtime error: a value like any other, which carries its message.

use crate::ast::types::Type;
use vstd::prelude::*;

verus! {

/// A runtime error: a value like any other, which carries its message.
#[derive(Debug)]
pub struct Error {
    pub val: String,
}

impl Error {
    pub fn new(val: String) -> (o: Self)
        ensures
            o.val == val,
    {
        Self { val }
    }

    pub fn get_type(&self) -> (t: Type)
        ensures
            t == Type::Error,
    {
        Type::Error
    }
}

} // verus!
