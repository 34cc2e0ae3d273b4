//! The function literal.

use crate::ast::identifier::Identifier;
use crate::ast::stmt::block_stmt::BlockStatement;
use crate::ast::types::Type;
use crate::lexer::token::Token;
use crate::ast::expression::{write_block, write_params};
use crate::ast::model::{
    block_opt_text, block_opt_view, function_text, idents_view, params_text, ret_text,
};
use vstd::prelude::*;

verus! {

/// `fn` with the function's name, its parameters, its declared result type
/// and its body.  The token is the `fn` keyword, kept for its position.
#[derive(Debug)]
pub struct FunctionExpr {
    pub token: Token,
    pub parameters: Vec<Identifier>,
    pub name: Identifier,
    pub body: Option<BlockStatement>,
    pub ret_typ: Type,
}

impl FunctionExpr {
    /// The name alone; the parser fills in the parameters, the result type
    /// and the body.
    pub fn new(token: Token, name: Identifier) -> (e: Self)
        ensures
            e.token == token,
            e.parameters@.len() == 0,
            e.name == name,
            e.body is None,
            e.ret_typ == Type::Unknown,
    {
        Self { token, parameters: Vec::new(), body: None, name, ret_typ: Type::Unknown }
    }

    pub fn get_type(&self) -> (t: Type)
        ensures
            t == Type::Function,
    {
        Type::Function
    }
}

impl FunctionExpr {
    /// Appends the function literal as source text.
    pub fn write(&self, out: &mut String)
        ensures
            final(out)@ == old(out)@ + function_text(
                self.name.value@,
                params_text(idents_view(self.parameters)),
                self.ret_typ,
                block_opt_text(block_opt_view(self.body)),
            ),
        decreases self,
    {
        out.append("fn ");
        out.append(self.name.value.as_str());
        out.append("(");
        write_params(&self.parameters, out);
        out.append(")");
        let ghost head = out@;
        match self.ret_typ {
            Type::Bool | Type::Int | Type::String => {
                out.append(" ");
                out.append(self.ret_typ.as_str());
            },
            _ => {},
        }
        assert(out@ =~= head + ret_text(self.ret_typ));
        out.append(" ");
        write_block(&self.body, out);
        assert(out@ =~= old(out)@ + function_text(
            self.name.value@,
            params_text(idents_view(self.parameters)),
            self.ret_typ,
            block_opt_text(block_opt_view(self.body)),
        ));
    }
}

} // verus!
