//! An array value.

use crate::ast::types::Type;
use crate::object::Object;
use vstd::prelude::*;

verus! {

/// An ordered sequence of values.
#[derive(Debug)]
pub struct Array {
    pub elements: Vec<Object>,
}

impl Array {
    pub fn new(elements: Vec<Object>) -> (o: Self)
        ensures
            o.elements == elements,
    {
        Self { elements }
    }

    pub fn get_type(&self) -> (t: Type)
        ensures
            t == Type::Array,
    {
        Type::Array
    }
}

} // verus!
