//! The expression statement.

use crate::ast::expression::Expression;
use crate::ast::types::Type;
use vstd::prelude::*;

verus! {

/// An expression that stands where a statement is expected.
#[derive(Debug)]
pub struct ExpressionStatement {
    pub expression: Option<Expression>,
    pub typ: Type,
}

impl ExpressionStatement {
    /// A statement without its expression; the parser fills it in.
    pub fn new(typ: Type) -> (s: Self)
        ensures
            s.expression is None,
            s.typ == typ,
    {
        Self { expression: None, typ }
    }

    pub fn get_type(&self) -> (t: Type)
        ensures
            t == self.typ,
    {
        self.typ
    }

    pub fn set_type(&mut self, typ: Type)
        ensures
            final(self).expression == old(self).expression,
            final(self).typ == typ,
    {
        self.typ = typ
    }
}

} // verus!
