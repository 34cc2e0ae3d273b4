//! A function value: a closure.

use crate::ast::identifier::Identifier;
use crate::ast::stmt::block_stmt::BlockStatement;
use crate::ast::types::Type;
use vstd::prelude::*;

verus! {

/// A function with the scope in which it was defined.  `env` is the number
/// of that scope in the environment; the body runs in a scope of its own
/// whose parent is that scope, not the caller's.
#[derive(Debug)]
pub struct Function {
    pub parameters: Vec<Identifier>,
    pub name: Identifier,
    pub body: Option<BlockStatement>,
    pub env: usize,
}

impl Function {
    pub fn new(
        parameters: Vec<Identifier>,
        name: Identifier,
        body: Option<BlockStatement>,
        env: usize,
    ) -> (o: Self)
        ensures
            o.parameters == parameters,
            o.name == name,
            o.body == body,
            o.env == env,
    {
        Self { parameters, name, body, env }
    }

    pub fn get_type(&self) -> (t: Type)
        ensures
            t == Type::Function,
    {
        Type::Function
    }
}

} // verus!
