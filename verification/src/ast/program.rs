//! The root of the tree.

use crate::ast::model::program_text;
use crate::ast::statement::{write_statements, Statement};
use vstd::prelude::*;

verus! {

/// A parsed source file: its statements in order, and the diagnostics that
/// parsing gathered.  A program with diagnostics must not be evaluated.
#[derive(Debug)]
pub struct Program {
    pub statements: Vec<Statement>,
    pub errors: Vec<String>,
}

impl Program {
    pub fn new(statements: Vec<Statement>, errors: Vec<String>) -> (p: Self)
        ensures
            p.statements == statements,
            p.errors == errors,
    {
        Self { statements, errors }
    }

    /// The program as source text.
    pub fn to_string(&self) -> (s: String)
        ensures
            s@ == program_text(self@),
    {
        let mut s = String::new();
        write_statements(&self.statements, &mut s);
        assert(Seq::<char>::empty() + program_text(self@) =~= program_text(self@));
        s
    }
}

} // verus!
