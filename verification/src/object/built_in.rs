//! A native function value.

use crate::ast::types::Type;
use vstd::prelude::*;

verus! {

/// The native functions of the language.
#[derive(Debug, Clone, Copy, PartialEq, Eq, Structural)]
pub enum BuildInFn {
    Len,
    ToStr,
    ToInt,
    Puts,
    Putsln,
    Eputs,
    Eputsln,
    Append,
    Slice,
    Input,
    IsError,
}

/// A reference to a native function.
#[derive(Debug, Clone, Copy, PartialEq, Eq, Structural)]
pub struct BuiltIn {
    pub function: BuildInFn,
}

impl BuiltIn {
    pub fn new(function: BuildInFn) -> (o: Self)
        ensures
            o.function == function,
    {
        Self { function }
    }

    pub fn get_type(&self) -> (t: Type)
        ensures
            t == Type::Function,
    {
        Type::Function
    }
}

} // verus!
