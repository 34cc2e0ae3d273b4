//! Any node of the tree.

use crate::ast::expression::Expression;
use crate::ast::program::Program;
use crate::ast::statement::Statement;
use vstd::prelude::*;

verus! {

/// A node of any of the three families: the program, a statement, an
/// expression.
#[derive(Debug)]
pub enum Node {
    Program(Program),
    Statement(Statement),
    Expression(Expression),
}

} // verus!
