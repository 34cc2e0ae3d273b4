//! A string literal.

use crate::ast::types::Type;
use crate::ast::model::string_text;
use vstd::prelude::*;

verus! {

/// A string literal.
#[derive(Debug)]
pub struct StrExpr {
    pub value: String,
}

impl StrExpr {
    pub fn new(value: String) -> (e: Self)
        ensures
            e.value == value,
    {
        Self { value }
    }

    pub fn get_type(&self) -> (t: Type)
        ensures
            t == Type::String,
    {
        Type::String
    }
}

impl StrExpr {
    /// Appends the literal as source text.
    pub fn write(&self, out: &mut String)
        ensures
            final(out)@ == old(out)@ + string_text(self.value@),
    {
        out.append("\"");
        out.append(self.value.as_str());
        out.append("\"");
        assert(out@ =~= old(out)@ + string_text(self.value@));
    }
}

} // verus!
