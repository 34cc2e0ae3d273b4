//! The index expression.

use crate::ast::expression::Expression;
use crate::ast::types::Type;
use crate::ast::model::{expr_text, index_gap, index_text};
use vstd::prelude::*;

verus! {

/// `left[index]`.
#[derive(Debug)]
pub struct IndexExpr {
    pub left: Box<Expression>,
    pub index: Box<Expression>,
}

impl IndexExpr {
    pub fn new(left: Expression, index: Expression) -> (e: Self)
        ensures
            *e.left == left,
            *e.index == index,
    {
        Self { left: Box::new(left), index: Box::new(index) }
    }

    pub fn get_type(&self) -> (t: Type)
        ensures
            t == Type::Index,
    {
        Type::Index
    }
}

impl IndexExpr {
    /// Appends the expression as source text.
    pub fn write(&self, out: &mut String)
        ensures
            final(out)@ == old(out)@ + index_text(expr_text(self.left@), expr_text(self.index@)),
        decreases self,
    {
        let mut left = String::new();
        self.left.write(&mut left);
        assert(left@ =~= expr_text(self.left@));
        out.append("(");
        out.append(left.as_str());
        let ghost head = out@;
        let n = left.as_str().unicode_len();
        if n > 0 {
            let last = left.as_str().get_char(n - 1);
            if '0' <= last && last <= '9' {
                out.append(" ");
            }
        }
        assert(out@ =~= head + index_gap(left@));
        out.append("[");
        self.index.write(out);
        out.append("])");
        assert(out@ =~= old(out)@ + index_text(expr_text(self.left@), expr_text(self.index@)));
    }
}

} // verus!
