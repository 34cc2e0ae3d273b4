//! An array literal: the expressions of its elements, in order.

use crate::ast::types::Type;
use crate::ast::expression::Expression;
use crate::ast::expression::write_list;
use crate::ast::model::{array_text, exprs_view, list_text};
use vstd::prelude::*;

verus! {

/// An array literal: the expressions of its elements, in order.
#[derive(Debug)]
pub struct ArrayExpr {
    pub value: Vec<Expression>,
}

impl ArrayExpr {
    pub fn new(value: Vec<Expression>) -> (e: Self)
        ensures
            e.value == value,
    {
        Self { value }
    }

    pub fn get_type(&self) -> (t: Type)
        ensures
            t == Type::Array,
    {
        Type::Array
    }
}

impl ArrayExpr {
    /// Appends the literal as source text.
    pub fn write(&self, out: &mut String)
        ensures
            final(out)@ == old(out)@ + array_text(list_text(exprs_view(self.value))),
        decreases self,
    {
        out.append("[");
        write_list(&self.value, out);
        out.append("]");
        assert(out@ =~= old(out)@ + array_text(list_text(exprs_view(self.value))));
    }
}

} // verus!
