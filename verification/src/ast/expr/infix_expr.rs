//! A binary operator and its two operands.

use crate::ast::expression::Expression;
use crate::ast::types::Type;
use crate::ast::expression::write_operand;
use crate::ast::model::{boxed_view, infix_text, operand_text};
use vstd::prelude::*;

verus! {

/// A binary operator between two expressions.  The type is that of the
/// operator's result; whether the operands fit it is known only when the
/// expression is evaluated.
#[derive(Debug)]
pub struct InfixExpr {
    pub operator: String,
    pub left: Option<Box<Expression>>,
    pub right: Option<Box<Expression>>,
    pub typ: Option<Type>,
}

impl InfixExpr {
    /// The operator alone; the parser fills in the operands and the type.
    pub fn new(operator: String) -> (e: Self)
        ensures
            e.operator == operator,
            e.left is None,
            e.right is None,
            e.typ is None,
    {
        Self { operator, right: None, left: None, typ: None }
    }

    /// The type of the operator's result, if one was recorded.
    pub fn get_type(&self) -> (t: Type)
        ensures
            t == (match self.typ {
                Some(typ) => typ,
                None => Type::Unknown,
            }),
    {
        if let Some(typ) = self.typ {
            typ
        } else {
            Type::Unknown
        }
    }

    pub fn set_type(&mut self, typ: Type)
        ensures
            final(self).operator == old(self).operator,
            final(self).left == old(self).left,
            final(self).right == old(self).right,
            final(self).typ == Some(typ),
    {
        self.typ = Some(typ)
    }
}

impl InfixExpr {
    /// Appends the expression as source text.
    pub fn write(&self, out: &mut String)
        ensures
            final(out)@ == old(out)@ + infix_text(
                self.operator@,
                operand_text(boxed_view(self.left)),
                operand_text(boxed_view(self.right)),
            ),
        decreases self,
    {
        out.append("(");
        write_operand(&self.left, out);
        out.append(" ");
        out.append(self.operator.as_str());
        out.append(" ");
        write_operand(&self.right, out);
        out.append(")");
        assert(out@ =~= old(out)@ + infix_text(
            self.operator@,
            operand_text(boxed_view(self.left)),
            operand_text(boxed_view(self.right)),
        ));
    }
}

} // verus!
