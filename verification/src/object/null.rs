//! The value that stands for no value.

use crate::ast::types::Type;
use vstd::prelude::*;

verus! {

/// The null value.
#[derive(Debug)]
pub struct Null;

impl Null {
    pub fn get_type(&self) -> (t: Type)
        ensures
            t == Type::Unknown,
    {
        Type::Unknown
    }
}

} // verus!
