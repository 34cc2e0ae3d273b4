//! The syntax tree: statements and expressions, each expression with the type
//! that the parser resolved for it.
//!
//! The node kinds are closed: [`expression::Expression`] and
//! [`statement::Statement`] list them all, so that every walk over the tree is
//! an exhaustive match.  [`model`] holds the mathematical model of the tree,
//! over which the parser, the printer and the evaluator are specified.

pub mod expr;
pub mod expression;
pub mod identifier;
pub mod model;
pub mod node;
pub mod program;
pub mod statement;
pub mod stmt;
pub mod types;
