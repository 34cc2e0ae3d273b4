//! The `ret` statement.

use crate::ast::expression::Expression;
use vstd::prelude::*;

verus! {

/// `ret`: leaves the enclosing block with the value of an expression.
#[derive(Debug)]
pub struct Return {
    pub return_value: Option<Expression>,
}

impl Return {
    pub fn new(return_value: Option<Expression>) -> (s: Self)
        ensures
            s.return_value == return_value,
    {
        Self { return_value }
    }
}

} // verus!
