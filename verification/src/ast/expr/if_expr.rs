//! The conditional expression.

use crate::ast::expression::Expression;
use crate::ast::stmt::block_stmt::BlockStatement;
use crate::ast::types::Type;
use crate::ast::expression::write_block;
use crate::ast::model::{
    block_opt_text, block_opt_view, block_text, boxed_view, else_text, expr_text, if_text,
};
use vstd::prelude::*;

verus! {

/// `if` with its condition, the block to run when it holds, and what follows
/// `else`: either a block or, for `else if`, another conditional.
#[derive(Debug)]
pub struct IfExpr {
    pub condition: Box<Expression>,
    pub consequence: Option<BlockStatement>,
    pub alternative: Option<BlockStatement>,
    pub el_if: Option<Box<Expression>>,
}

impl IfExpr {
    /// The condition alone; the parser fills in the branches.
    pub fn new(condition: Expression) -> (e: Self)
        ensures
            *e.condition == condition,
            e.consequence is None,
            e.alternative is None,
            e.el_if is None,
    {
        Self { condition: Box::new(condition), consequence: None, alternative: None, el_if: None }
    }

    pub fn get_type(&self) -> (t: Type)
        ensures
            t == Type::Expression,
    {
        Type::Expression
    }
}

impl IfExpr {
    /// The text of what `else` introduces, if the conditional has an `else`.
    pub open spec fn rest_text(self) -> Option<Seq<char>> {
        match boxed_view(self.el_if) {
            Some(other) => Some(expr_text(*other)),
            None => match block_opt_view(self.alternative) {
                Some(stmts) => Some(block_text(stmts)),
                None => None,
            },
        }
    }

    /// Appends the expression as source text.
    pub fn write(&self, out: &mut String)
        ensures
            final(out)@ == old(out)@ + if_text(
                expr_text(self.condition@),
                block_opt_text(block_opt_view(self.consequence)),
                self.rest_text(),
            ),
        decreases self,
    {
        out.append("if ");
        self.condition.write(out);
        out.append(" ");
        write_block(&self.consequence, out);
        let ghost head = out@;
        match &self.el_if {
            Some(other) => {
                out.append(" else ");
                other.write(out);
                assert(out@ =~= head + else_text(self.rest_text()));
            },
            None => match &self.alternative {
                Some(block) => {
                    out.append(" else ");
                    block.write(out);
                    assert(out@ =~= head + else_text(self.rest_text()));
                },
                None => {
                    assert(out@ =~= head + else_text(self.rest_text()));
                },
            },
        }
        assert(out@ =~= old(out)@ + if_text(
            expr_text(self.condition@),
            block_opt_text(block_opt_view(self.consequence)),
            self.rest_text(),
        ));
    }
}

} // verus!
