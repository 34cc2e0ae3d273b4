//! A prefix operator and its operand.

use crate::ast::expression::Expression;
use crate::ast::types::Type;
use crate::ast::expression::write_operand;
use crate::ast::model::{boxed_view, operand_text, prefix_gap, prefix_text};
use vstd::prelude::*;

verus! {

/// A prefix operator applied to the expression on its right.  The type is
/// that of the operator's result.
#[derive(Debug)]
pub struct PrefixExpr {
    pub operator: String,
    pub right: Option<Box<Expression>>,
    pub typ: Option<Type>,
}

impl PrefixExpr {
    /// The operator alone; the parser fills in the operand and the type.
    pub fn new(operator: String) -> (e: Self)
        ensures
            e.operator == operator,
            e.right is None,
            e.typ is None,
    {
        Self { operator, right: None, typ: None }
    }

    /// The type of the operator's result, if one was recorded.
    pub fn get_type(&self) -> (t: Type)
        ensures
            t == (match self.typ {
                Some(typ) => typ,
                None => Type::Unknown,
            }),
    {
        match self.typ {
            Some(typ) => typ,
            None => Type::Unknown,
        }
    }

    pub fn set_type(&mut self, typ: Type)
        ensures
            final(self).operator == old(self).operator,
            final(self).right == old(self).right,
            final(self).typ == Some(typ),
    {
        self.typ = Some(typ);
    }
}

impl PrefixExpr {
    /// Appends the expression as source text.
    pub fn write(&self, out: &mut String)
        ensures
            final(out)@ == old(out)@ + prefix_text(
                self.operator@,
                operand_text(boxed_view(self.right)),
            ),
        decreases self,
    {
        let mut right = String::new();
        write_operand(&self.right, &mut right);
        assert(right@ =~= operand_text(boxed_view(self.right)));
        out.append("(");
        out.append(self.operator.as_str());
        let ghost head = out@;
        if !right.as_str().is_empty() {
            let first = right.as_str().get_char(0);
            if '0' <= first && first <= '9' {
                out.append(" ");
            }
        }
        assert(out@ =~= head + prefix_gap(right@));
        out.append(right.as_str());
        out.append(")");
        assert(out@ =~= old(out)@ + prefix_text(self.operator@, right@));
    }
}

} // verus!
