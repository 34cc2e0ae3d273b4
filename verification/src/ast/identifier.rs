//! Identifiers: the names of bindings, parameters and functions.

use crate::ast::types::Type;
use vstd::prelude::*;

verus! {

/// A name, and the type it was declared with where the source gives one.
#[derive(Debug)]
pub struct Identifier {
    pub value: String,
    pub typ: Option<Type>,
}

impl Identifier {
    /// An identifier without a declared type.
    pub fn new(value: String) -> (i: Self)
        ensures
            i.value == value,
            i.typ is None,
    {
        Self { value, typ: None }
    }

    /// An identifier by itself has no resolved type.
    pub fn get_type(&self) -> (t: Type)
        ensures
            t == Type::Unknown,
    {
        Type::Unknown
    }

    /// Records the type that the identifier was declared with.
    pub fn set_type(&mut self, typ: Type)
        ensures
            final(self).value == old(self).value,
            final(self).typ == Some(typ),
    {
        self.typ = Some(typ);
    }
}

impl Clone for Identifier {
    fn clone(&self) -> (i: Self)
        ensures
            i == *self,
    {
        Self { value: self.value.clone(), typ: self.typ }
    }
}

} // verus!
