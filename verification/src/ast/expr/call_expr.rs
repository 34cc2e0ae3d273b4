//! The call expression.

use crate::ast::expression::Expression;
use crate::ast::expression::write_list;
use crate::ast::model::{call_text, expr_text, expr_type, exprs_view, list_text};
use crate::ast::types::Type;
use vstd::prelude::*;

verus! {

/// A call: the expression that yields the function, and the expressions of
/// the arguments, in order.
#[derive(Debug)]
pub struct CallExpr {
    pub function: Box<Expression>,
    pub arguments: Vec<Expression>,
}

impl CallExpr {
    /// A call without arguments; the parser fills them in.
    pub fn new(function: Expression) -> (e: Self)
        ensures
            *e.function == function,
            e.arguments@.len() == 0,
    {
        Self { function: Box::new(function), arguments: Vec::new() }
    }
}

impl CallExpr {
    /// The type of a call is the resolved type of what is called.
    pub fn get_type(&self) -> (t: Type)
        ensures
            t == expr_type(self.function@),
    {
        self.function.get_type()
    }

    /// Appends the call as source text.
    pub fn write(&self, out: &mut String)
        ensures
            final(out)@ == old(out)@ + call_text(
                expr_text(self.function@),
                list_text(exprs_view(self.arguments)),
            ),
        decreases self,
    {
        self.function.write(out);
        out.append("(");
        write_list(&self.arguments, out);
        out.append(")");
        assert(out@ =~= old(out)@ + call_text(
            expr_text(self.function@),
            list_text(exprs_view(self.arguments)),
        ));
    }
}

} // verus!
