//! The loop expression.

use crate::ast::expression::Expression;
use crate::ast::stmt::block_stmt::BlockStatement;
use crate::ast::types::Type;
use crate::ast::expression::write_block;
use crate::ast::model::{block_opt_text, block_opt_view, expr_text, while_text};
use vstd::prelude::*;

verus! {

/// `while` with its condition and the block to repeat.
#[derive(Debug)]
pub struct WhileExpr {
    pub condition: Box<Expression>,
    pub consequence: Option<BlockStatement>,
}

impl WhileExpr {
    /// The condition alone; the parser fills in the body.
    pub fn new(condition: Expression) -> (e: Self)
        ensures
            *e.condition == condition,
            e.consequence is None,
    {
        Self { condition: Box::new(condition), consequence: None }
    }

    pub fn get_type(&self) -> (t: Type)
        ensures
            t == Type::Expression,
    {
        Type::Expression
    }
}

impl WhileExpr {
    /// Appends the expression as source text.
    pub fn write(&self, out: &mut String)
        ensures
            final(out)@ == old(out)@ + while_text(
                expr_text(self.condition@),
                block_opt_text(block_opt_view(self.consequence)),
            ),
        decreases self,
    {
        out.append("while ");
        self.condition.write(out);
        out.append(" ");
        write_block(&self.consequence, out);
        assert(out@ =~= old(out)@ + while_text(
            expr_text(self.condition@),
            block_opt_text(block_opt_view(self.consequence)),
        ));
    }
}

} // verus!
