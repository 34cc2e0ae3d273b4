//! The `var` statement.

use crate::ast::expression::Expression;
use crate::ast::identifier::Identifier;
use crate::ast::types::Type;
use vstd::prelude::*;

verus! {

/// `var`: binds the value of an expression to a name.  The type is the
/// resolved type of the expression.
#[derive(Debug)]
pub struct Var {
    pub typ: Type,
    pub name: Identifier,
    pub value: Expression,
}

impl Var {
    pub fn new(typ: Type, name: Identifier, value: Expression) -> (s: Self)
        ensures
            s.typ == typ,
            s.name == name,
            s.value == value,
    {
        Self { typ, name, value }
    }
}

} // verus!
