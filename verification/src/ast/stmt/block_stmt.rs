//! The block: a sequence of statements.

use crate::ast::model::block_text;
use crate::ast::statement::{duplicate_statements, write_statements, Statement};
use vstd::prelude::*;

verus! {

/// The statements between a pair of braces, in order.
#[derive(Debug)]
pub struct BlockStatement {
    pub statements: Vec<Statement>,
}

impl BlockStatement {
    /// The empty block.
    pub fn new() -> (b: Self)
        ensures
            b.statements@.len() == 0,
    {
        Self { statements: Vec::new() }
    }

    /// Adds `stmt` at the end of the block.
    pub fn push_stmt(&mut self, stmt: Statement)
        ensures
            final(self).statements@ == old(self).statements@.push(stmt),
    {
        self.statements.push(stmt)
    }
}

impl BlockStatement {
    /// A copy of the block with the same model.
    pub fn duplicate(&self) -> (r: Self)
        ensures
            r@ == self@,
        decreases self,
    {
        Self { statements: duplicate_statements(&self.statements) }
    }

    /// Appends the block as source text: its statements between braces.
    pub fn write(&self, out: &mut String)
        ensures
            final(out)@ == old(out)@ + block_text(self@),
        decreases self,
    {
        if self.statements.len() == 0 {
            out.append("{ }");
        } else {
            out.append("{ ");
            write_statements(&self.statements, out);
            out.append(" }");
            assert(out@ =~= old(out)@ + block_text(self@));
        }
    }

    /// The block as source text.
    pub fn to_string(&self) -> (s: String)
        ensures
            s@ == block_text(self@),
    {
        let mut s = String::new();
        self.write(&mut s);
        assert(Seq::<char>::empty() + block_text(self@) =~= block_text(self@));
        s
    }
}

impl Clone for BlockStatement {
    fn clone(&self) -> (r: Self)
        ensures
            r@ == self@,
    {
        self.duplicate()
    }
}

impl Default for BlockStatement {
    fn default() -> (b: Self)
        ensures
            b.statements@.len() == 0,
    {
        Self::new()
    }
}

} // verus!
