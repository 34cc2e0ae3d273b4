//! The forms with blocks: conditionals, loops and function literals.

use crate::ast::expr::function_expr::FunctionExpr;
use crate::ast::expr::if_expr::IfExpr;
use crate::ast::expr::while_expr::WhileExpr;
use crate::ast::expression::Expression;
use crate::ast::identifier::Identifier;
use crate::ast::model::{block_opt_view, boxed_view, idents_view, ExprView, StmtView};
use crate::ast::stmt::block_stmt::BlockStatement;
use crate::ast::types::Type;
use crate::lexer::token::{Token, TokenKind};
use crate::parser::errors::{ParseError, ParseErrorView};
use crate::parser::precedence::Precedence;
use vstd::prelude::*;

use crate::parser::{expr_outcome, idents_outcome, moved, Parser};
use crate::parser::grammar;


verus! {

impl Parser {
    #[verifier::spinoff_prover]
    pub(crate) fn parse_function_parameters(&mut self) -> (r: Result<Vec<Identifier>, ParseError>)
        requires
            old(self).wf(),
        ensures
            final(self).wf(),
            ({
                let p = grammar::parse_function_parameters(
                    old(self)@.tokens,
                    old(self)@.position,
                    old(self)@.errors,
                );
                &&& idents_outcome(r) == p.result
                &&& moved(old(self)@, final(self)@, p.used, p.errors)
            }),
    {
        let mut identifiers: Vec<Identifier> = Vec::new();
        if self.current_token_is(TokenKind::EOF) {
            return Err(self.prefix_message());
        }
        if self.peek_token_is(TokenKind::RParen) {
            self.next_token();
            assert(idents_view(identifiers) =~= Seq::empty());
            return Ok(identifiers);
        }
        self.next_token();
        match self.create_identifier(true) {
            Ok(identifier) => {
                identifiers.push(identifier);
                assert(idents_view(identifiers) =~= seq![identifier@]);
                self.parse_more_parameters(identifiers)
            },
            Err(e) => Err(e),
        }
    }

    /// Parses the parameters behind the first one, and the closing bracket.
    #[verifier::spinoff_prover]
    pub(crate) fn parse_more_parameters(&mut self, identifiers: Vec<Identifier>) -> (r: Result<
        Vec<Identifier>,
        ParseError,
    >)
        requires
            old(self).wf(),
        ensures
            final(self).wf(),
            ({
                let p = grammar::parse_more_parameters(
                    old(self)@.tokens,
                    old(self)@.position,
                    old(self)@.errors,
                    idents_view(identifiers),
                );
                &&& idents_outcome(r) == p.result
                &&& moved(old(self)@, final(self)@, p.used, p.errors)
            }),
    {
        let mut list = identifiers;
        loop
            invariant
                self.wf(),
                self@.tokens == old(self)@.tokens,
                ({
                    let here = grammar::parse_more_parameters(
                        self@.tokens,
                        self@.position,
                        self@.errors,
                        idents_view(list),
                    );
                    let all = grammar::parse_more_parameters(
                        old(self)@.tokens,
                        old(self)@.position,
                        old(self)@.errors,
                        idents_view(identifiers),
                    );
                    &&& here.result == all.result
                    &&& here.errors == all.errors
                    &&& self@.position + here.used == old(self)@.position + all.used
                }),
            decreases grammar::remaining(self@.tokens, self@.position),
        {
            proof {
                reveal(grammar::parse_more_parameters);
            }
            if !self.peek_token_is(TokenKind::Comma) {
                return match self.expected_peek(TokenKind::RParen) {
                    Ok(_) => Ok(list),
                    Err(e) => Err(e),
                };
            }
            self.next_token();
            self.next_token();
            let ghost before = idents_view(list);
            match self.create_identifier(true) {
                Ok(identifier) => {
                    list.push(identifier);
                    assert(idents_view(list) =~= before.push(identifier@));
                },
                Err(e) => {
                    return Err(e);
                },
            }
        }
    }

    /// A copy of the token at the position; past the last token, the end of
    /// the input.
    pub(crate) fn current_token(&self) -> (token: Token)
        requires
            self.wf(),
    {
        if self.position < self.tokens.len() {
            self.tokens[self.position].clone()
        } else {
            Token::EOF(None)
        }
    }

    #[verifier::spinoff_prover]
    pub(crate) fn parse_if_expression(&mut self) -> (r: Result<Expression, ParseError>)
        requires
            old(self).wf(),
        ensures
            final(self).wf(),
            ({
                let p = grammar::parse_if_expression(
                    old(self)@.tokens,
                    old(self)@.position,
                    old(self)@.errors,
                );
                &&& expr_outcome(r) == p.result
                &&& moved(old(self)@, final(self)@, p.used, p.errors)
            }),
        decreases grammar::remaining(old(self)@.tokens, old(self)@.position), 1nat,
    {
        proof {
            reveal(grammar::parse_if_expression);
        }
        if self.current_token_is(TokenKind::EOF) {
            return Err(self.prefix_message());
        }
        self.next_token();
        let condition = match self.parse_expression(Precedence::Lowest) {
            Ok(condition) => condition,
            Err(e) => {
                return Err(e);
            },
        };
        match self.expected_peek(TokenKind::LBrace) {
            Ok(_) => {},
            Err(e) => {
                return Err(e);
            },
        }
        let consequence = self.parse_block_statement();
        match self.parse_else() {
            Ok((alternative, el_if)) => {
                let if_expr = IfExpr {
                    condition: Box::new(condition),
                    consequence: Some(consequence),
                    alternative,
                    el_if,
                };
                assert(block_opt_view(if_expr.consequence) == Some(consequence@));
                Ok(Expression::If(if_expr))
            },
            Err(e) => Err(e),
        }
    }

    /// Parses what follows the block of a conditional: nothing, a block
    /// behind `else`, or another conditional behind `else`.
    #[verifier::spinoff_prover]
    pub(crate) fn parse_else(&mut self) -> (r: Result<
        (Option<BlockStatement>, Option<Box<Expression>>),
        ParseError,
    >)
        requires
            old(self).wf(),
        ensures
            final(self).wf(),
            ({
                let p = grammar::parse_else(
                    old(self)@.tokens,
                    old(self)@.position,
                    old(self)@.errors,
                );
                &&& match r {
                    Ok((alternative, el_if)) => p.result == Ok::<grammar::ElseView, ParseErrorView>(
                        grammar::ElseView {
                            alternative: block_opt_view(alternative),
                            el_if: boxed_view(el_if),
                        },
                    ),
                    Err(e) => p.result == Err::<grammar::ElseView, ParseErrorView>(e@),
                }
                &&& moved(old(self)@, final(self)@, p.used, p.errors)
            }),
        decreases grammar::remaining(old(self)@.tokens, old(self)@.position), 0nat,
    {
        proof {
            reveal(grammar::parse_else);
        }
        if !self.peek_token_is(TokenKind::Else) {
            let alternative: Option<BlockStatement> = None;
            let el_if: Option<Box<Expression>> = None;
            assert(block_opt_view(alternative) == None::<Seq<StmtView>>);
            assert(boxed_view(el_if) == None::<Box<ExprView>>);
            return Ok((alternative, el_if));
        }
        self.next_token();
        if self.peek_token_is(TokenKind::LBrace) {
            self.next_token();
            let block = self.parse_block_statement();
            let alternative = Some(block);
            let el_if: Option<Box<Expression>> = None;
            assert(block_opt_view(alternative) == Some(block@));
            assert(boxed_view(el_if) == None::<Box<ExprView>>);
            Ok((alternative, el_if))
        } else if self.peek_token_is(TokenKind::If) {
            self.next_token();
            match self.parse_if_expression() {
                Ok(nested) => {
                    let alternative: Option<BlockStatement> = None;
                    let el_if = Some(Box::new(nested));
                    assert(block_opt_view(alternative) == None::<Seq<StmtView>>);
                    assert(boxed_view(el_if) == Some(Box::new(nested@)));
                    Ok((alternative, el_if))
                },
                Err(e) => Err(e),
            }
        } else {
            Err(self.expected_message(TokenKind::If, 1))
        }
    }

    #[verifier::spinoff_prover]
    pub(crate) fn parse_while_expression(&mut self) -> (r: Result<Expression, ParseError>)
        requires
            old(self).wf(),
        ensures
            final(self).wf(),
            ({
                let p = grammar::parse_while_expression(
                    old(self)@.tokens,
                    old(self)@.position,
                    old(self)@.errors,
                );
                &&& expr_outcome(r) == p.result
                &&& moved(old(self)@, final(self)@, p.used, p.errors)
            }),
        decreases grammar::remaining(old(self)@.tokens, old(self)@.position), 1nat,
    {
        proof {
            reveal(grammar::parse_while_expression);
        }
        if self.current_token_is(TokenKind::EOF) {
            return Err(self.prefix_message());
        }
        self.next_token();
        let condition = match self.parse_expression(Precedence::Lowest) {
            Ok(condition) => condition,
            Err(e) => {
                return Err(e);
            },
        };
        match self.expected_peek(TokenKind::LBrace) {
            Ok(_) => {},
            Err(e) => {
                return Err(e);
            },
        }
        let consequence = self.parse_block_statement();
        let while_expr = WhileExpr {
            condition: Box::new(condition),
            consequence: Some(consequence),
        };
        assert(block_opt_view(while_expr.consequence) == Some(consequence@));
        Ok(Expression::While(while_expr))
    }

    /// Parses what follows a parameter list: the declared result type, if
    /// there is one, and moves onto the opening brace of the body.
    #[verifier::spinoff_prover]
    pub(crate) fn parse_result_type(&mut self) -> (r: Result<Type, ParseError>)
        requires
            old(self).wf(),
        ensures
            final(self).wf(),
            ({
                let p = grammar::parse_result_type(
                    old(self)@.tokens,
                    old(self)@.position,
                    old(self)@.errors,
                );
                &&& match r {
                    Ok(t) => p.result == Ok::<Type, ParseErrorView>(t),
                    Err(e) => p.result == Err::<Type, ParseErrorView>(e@),
                }
                &&& moved(old(self)@, final(self)@, p.used, p.errors)
            }),
    {
        let mut ret_typ = Type::Unknown;
        if self.has_type() {
            self.next_token();
            ret_typ = match self.kind_ahead(0) {
                TokenKind::Bool => Type::Bool,
                TokenKind::Int => Type::Int,
                TokenKind::Str => Type::String,
                _ => Type::Unknown,
            };
        }
        match self.expected_peek(TokenKind::LBrace) {
            Ok(_) => Ok(ret_typ),
            Err(e) => Err(e),
        }
    }

    /// Parses the head of a function literal: the name, the parameters and
    /// the declared result type, and moves onto the opening brace.
    #[verifier::spinoff_prover]
    pub(crate) fn parse_function_header(&mut self) -> (r: Result<
        (Identifier, Vec<Identifier>, Type),
        ParseError,
    >)
        requires
            old(self).wf(),
        ensures
            final(self).wf(),
            ({
                let p = grammar::parse_function_header(
                    old(self)@.tokens,
                    old(self)@.position,
                    old(self)@.errors,
                );
                &&& match r {
                    Ok((name, parameters, ret_typ)) => p.result == Ok::<
                        grammar::HeaderView,
                        ParseErrorView,
                    >(
                        grammar::HeaderView {
                            name: name@,
                            parameters: idents_view(parameters),
                            ret_typ,
                        },
                    ),
                    Err(e) => p.result == Err::<grammar::HeaderView, ParseErrorView>(e@),
                }
                &&& moved(old(self)@, final(self)@, p.used, p.errors)
            }),
    {
        if self.current_token_is(TokenKind::EOF) {
            return Err(self.prefix_message());
        }
        self.next_token();
        let name = match self.create_identifier(false) {
            Ok(name) => name,
            Err(e) => {
                return Err(e);
            },
        };
        match self.expected_peek(TokenKind::LParen) {
            Ok(_) => {},
            Err(e) => {
                return Err(e);
            },
        }
        let parameters = match self.parse_function_parameters() {
            Ok(parameters) => parameters,
            Err(e) => {
                return Err(e);
            },
        };
        match self.parse_result_type() {
            Ok(ret_typ) => Ok((name, parameters, ret_typ)),
            Err(e) => Err(e),
        }
    }

    #[verifier::spinoff_prover]
    pub(crate) fn parse_function_literal(&mut self) -> (r: Result<Expression, ParseError>)
        requires
            old(self).wf(),
        ensures
            final(self).wf(),
            ({
                let p = grammar::parse_function_literal(
                    old(self)@.tokens,
                    old(self)@.position,
                    old(self)@.errors,
                );
                &&& expr_outcome(r) == p.result
                &&& moved(old(self)@, final(self)@, p.used, p.errors)
            }),
        decreases grammar::remaining(old(self)@.tokens, old(self)@.position), 1nat,
    {
        proof {
            reveal(grammar::parse_function_literal);
        }
        let token = self.current_token();
        let (name, parameters, ret_typ) = match self.parse_function_header() {
            Ok(header) => header,
            Err(e) => {
                return Err(e);
            },
        };
        let body = self.parse_block_statement();
        let function = FunctionExpr { token, parameters, name, body: Some(body), ret_typ };
        assert(block_opt_view(function.body) == Some(body@));
        Ok(Expression::Function(function))
    }
}

} // verus!
