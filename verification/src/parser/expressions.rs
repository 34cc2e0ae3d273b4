//! Expressions: the prefix forms and the operators behind them.

use crate::ast::expr::arr_expr::ArrayExpr;
use crate::ast::expr::bool_expr::BoolExpr;
use crate::ast::expr::call_expr::CallExpr;
use crate::ast::expr::index_expr::IndexExpr;
use crate::ast::expr::infix_expr::InfixExpr;
use crate::ast::expr::int_expr::IntExpr;
use crate::ast::expr::prefix_expr::PrefixExpr;
use crate::ast::expr::str_expr::StrExpr;
use crate::ast::expression::Expression;
use crate::ast::identifier::Identifier;
use crate::ast::model::{boxed_view, exprs_view};
use crate::lexer::token::TokenKind;
use crate::parser::errors::ParseError;
use crate::parser::grammar::InfixForm;
use crate::parser::precedence::{get_precedence, Precedence};
use crate::text::{chars_of, parse_i64};
use vstd::prelude::*;

use crate::parser::{expr_outcome, exprs_outcome, message, moved, Parser};
use crate::parser::grammar;


verus! {

impl Parser {
    #[verifier::spinoff_prover]
    pub(crate) fn parse_identifier(&mut self) -> (r: Result<Expression, ParseError>)
        requires
            old(self).wf(),
        ensures
            final(self).wf(),
            ({
                let p = grammar::parse_identifier(
                    old(self)@.tokens,
                    old(self)@.position,
                    old(self)@.errors,
                );
                &&& expr_outcome(r) == p.result
                &&& moved(old(self)@, final(self)@, p.used, p.errors)
            }),
    {
        if self.current_token_is(TokenKind::Ident) {
            match self.text_ahead(0) {
                Some(name) => {
                    return Ok(Expression::Identifier(Identifier::new(name)));
                },
                None => {},
            }
        }
        let mut text = String::from_str("expected identifier, got ");
        text.append(self.display_ahead(0).as_str());
        Err(message(text))
    }

    #[verifier::spinoff_prover]
    pub(crate) fn parse_number_literal(&mut self) -> (r: Result<Expression, ParseError>)
        requires
            old(self).wf(),
        ensures
            final(self).wf(),
            ({
                let p = grammar::parse_number_literal(
                    old(self)@.tokens,
                    old(self)@.position,
                    old(self)@.errors,
                );
                &&& expr_outcome(r) == p.result
                &&& moved(old(self)@, final(self)@, p.used, p.errors)
            }),
    {
        if self.current_token_is(TokenKind::Number) {
            match self.text_ahead(0) {
                Some(text) => {
                    let digits = chars_of(text.as_str());
                    match parse_i64(&digits) {
                        Some(value) => {
                            return Ok(Expression::Int(IntExpr::new(value)));
                        },
                        None => {},
                    }
                },
                None => {},
            }
        }
        let mut text = String::from_str("fail on parse value: ");
        text.append(self.display_ahead(0).as_str());
        Err(message(text))
    }

    #[verifier::spinoff_prover]
    pub(crate) fn parse_bool_literal(&mut self) -> (r: Result<Expression, ParseError>)
        requires
            old(self).wf(),
        ensures
            final(self).wf(),
            ({
                let p = grammar::parse_bool_literal(
                    old(self)@.tokens,
                    old(self)@.position,
                    old(self)@.errors,
                );
                &&& expr_outcome(r) == p.result
                &&& moved(old(self)@, final(self)@, p.used, p.errors)
            }),
    {
        match self.kind_ahead(0) {
            TokenKind::True => Ok(Expression::Bool(BoolExpr::new(true))),
            TokenKind::False => Ok(Expression::Bool(BoolExpr::new(false))),
            _ => {
                let mut text = String::from_str("expected boolean value got: ");
                text.append(self.display_ahead(0).as_str());
                Err(message(text))
            },
        }
    }

    #[verifier::spinoff_prover]
    pub(crate) fn parse_string_literal(&mut self) -> (r: Result<Expression, ParseError>)
        requires
            old(self).wf(),
        ensures
            final(self).wf(),
            ({
                let p = grammar::parse_string_literal(
                    old(self)@.tokens,
                    old(self)@.position,
                    old(self)@.errors,
                );
                &&& expr_outcome(r) == p.result
                &&& moved(old(self)@, final(self)@, p.used, p.errors)
            }),
    {
        if self.current_token_is(TokenKind::String) {
            match self.text_ahead(0) {
                Some(text) => {
                    return Ok(Expression::Str(StrExpr::new(text)));
                },
                None => {},
            }
        }
        let mut text = String::from_str("expected string value got: ");
        text.append(self.display_ahead(0).as_str());
        Err(message(text))
    }

    #[verifier::spinoff_prover]
    pub(crate) fn parse_expression(&mut self, precedence: Precedence) -> (r: Result<
        Expression,
        ParseError,
    >)
        requires
            old(self).wf(),
        ensures
            final(self).wf(),
            ({
                let p = grammar::parse_expression(
                    old(self)@.tokens,
                    old(self)@.position,
                    old(self)@.errors,
                    precedence,
                );
                &&& expr_outcome(r) == p.result
                &&& moved(old(self)@, final(self)@, p.used, p.errors)
            }),
        decreases grammar::remaining(old(self)@.tokens, old(self)@.position), 4nat,
    {
        proof {
            reveal(grammar::parse_expression);
        }
        match self.parse_prefix() {
            Ok(left) => self.parse_operators(precedence, left),
            Err(e) => Err(e),
        }
    }

    #[verifier::spinoff_prover]
    pub(crate) fn parse_prefix(&mut self) -> (r: Result<Expression, ParseError>)
        requires
            old(self).wf(),
        ensures
            final(self).wf(),
            ({
                let p = grammar::parse_prefix(
                    old(self)@.tokens,
                    old(self)@.position,
                    old(self)@.errors,
                );
                &&& expr_outcome(r) == p.result
                &&& moved(old(self)@, final(self)@, p.used, p.errors)
            }),
        decreases grammar::remaining(old(self)@.tokens, old(self)@.position), 3nat,
    {
        proof {
            reveal(grammar::parse_prefix);
        }
        match self.kind_ahead(0) {
            TokenKind::Ident => self.parse_identifier(),
            TokenKind::Number => self.parse_number_literal(),
            TokenKind::Minus | TokenKind::Bang => self.parse_prefix_expression(),
            TokenKind::True | TokenKind::False => self.parse_bool_literal(),
            TokenKind::String => self.parse_string_literal(),
            TokenKind::LParen => self.parse_grouped_expression(),
            TokenKind::LSqBracket => self.parse_array_literal(),
            TokenKind::If => self.parse_if_expression(),
            TokenKind::While => self.parse_while_expression(),
            TokenKind::Function => self.parse_function_literal(),
            _ => Err(self.prefix_message()),
        }
    }

    #[verifier::spinoff_prover]
    pub(crate) fn parse_infix(&mut self, form: InfixForm, left: Expression) -> (r: Result<
        Expression,
        ParseError,
    >)
        requires
            old(self).wf(),
        ensures
            final(self).wf(),
            ({
                let p = grammar::parse_infix(
                    old(self)@.tokens,
                    old(self)@.position,
                    old(self)@.errors,
                    form,
                    left@,
                );
                &&& expr_outcome(r) == p.result
                &&& moved(old(self)@, final(self)@, p.used, p.errors)
            }),
        decreases grammar::remaining(old(self)@.tokens, old(self)@.position), 3nat,
    {
        proof {
            reveal(grammar::parse_infix);
        }
        match form {
            InfixForm::Binary => self.parse_infix_expression(left),
            InfixForm::Call => self.parse_call_expression(left),
            InfixForm::Index => self.parse_index_expression(left),
        }
    }

    #[verifier::spinoff_prover]
    pub(crate) fn parse_operators(&mut self, precedence: Precedence, left: Expression) -> (r:
        Result<Expression, ParseError>)
        requires
            old(self).wf(),
        ensures
            final(self).wf(),
            ({
                let p = grammar::parse_operators(
                    old(self)@.tokens,
                    old(self)@.position,
                    old(self)@.errors,
                    precedence,
                    left@,
                );
                &&& expr_outcome(r) == p.result
                &&& moved(old(self)@, final(self)@, p.used, p.errors)
            }),
        decreases grammar::remaining(old(self)@.tokens, old(self)@.position), 2nat,
    {
        let mut operand = left;
        loop
            invariant
                self.wf(),
                self@.tokens == old(self)@.tokens,
                old(self)@.position <= self@.position,
                ({
                    let here = grammar::parse_operators(
                        self@.tokens,
                        self@.position,
                        self@.errors,
                        precedence,
                        operand@,
                    );
                    let all = grammar::parse_operators(
                        old(self)@.tokens,
                        old(self)@.position,
                        old(self)@.errors,
                        precedence,
                        left@,
                    );
                    &&& here.result == all.result
                    &&& here.errors == all.errors
                    &&& self@.position + here.used == old(self)@.position + all.used
                }),
            decreases grammar::remaining(self@.tokens, self@.position),
        {
            proof {
                reveal(grammar::parse_operators);
            }
            let next = self.kind_ahead(1);
            if self.current_token_is(TokenKind::Semicolon) || !precedence.below(
                &get_precedence(next),
            ) {
                return Ok(operand);
            }
            let form = match Self::infix_form(next) {
                Some(form) => form,
                None => {
                    return Ok(operand);
                },
            };
            self.next_token();
            match self.parse_infix(form, operand) {
                Ok(expression) => {
                    operand = expression;
                },
                Err(e) => {
                    return Err(e);
                },
            }
        }
    }

    /// The form that a token introduces when it follows an operand.
    pub(crate) fn infix_form(kind: TokenKind) -> (form: Option<InfixForm>)
        ensures
            form == grammar::infix_form(kind),
    {
        match kind {
            TokenKind::Plus
            | TokenKind::Minus
            | TokenKind::Slash
            | TokenKind::Asterisk
            | TokenKind::Eq
            | TokenKind::Diff
            | TokenKind::Lt
            | TokenKind::Gt
            | TokenKind::Gte
            | TokenKind::Lte
            | TokenKind::And
            | TokenKind::Or
            | TokenKind::Assign => Some(InfixForm::Binary),
            TokenKind::LParen => Some(InfixForm::Call),
            TokenKind::LSqBracket => Some(InfixForm::Index),
            _ => None,
        }
    }

    /// The spelling of an operator kind as an owned string.
    pub(crate) fn literal(kind: TokenKind) -> (s: String)
        ensures
            s@ == kind.literal(),
    {
        if kind.operator() {
            String::from_str(kind.as_str())
        } else {
            String::from_str("unknown")
        }
    }

    #[verifier::spinoff_prover]
    pub(crate) fn parse_prefix_expression(&mut self) -> (r: Result<Expression, ParseError>)
        requires
            old(self).wf(),
        ensures
            final(self).wf(),
            ({
                let p = grammar::parse_prefix_expression(
                    old(self)@.tokens,
                    old(self)@.position,
                    old(self)@.errors,
                );
                &&& expr_outcome(r) == p.result
                &&& moved(old(self)@, final(self)@, p.used, p.errors)
            }),
        decreases grammar::remaining(old(self)@.tokens, old(self)@.position), 1nat,
    {
        proof {
            reveal(grammar::parse_prefix_expression);
        }
        let kind = self.kind_ahead(0);
        if kind == TokenKind::EOF {
            return Err(self.prefix_message());
        }
        self.next_token();
        match self.parse_expression(Precedence::Prefix) {
            Ok(right) => {
                let prefix = PrefixExpr {
                    operator: Self::literal(kind),
                    right: Some(Box::new(right)),
                    typ: Some(kind.type_of()),
                };
                assert(boxed_view(prefix.right) == Some(Box::new(right@)));
                Ok(Expression::Prefix(prefix))
            },
            Err(e) => Err(e),
        }
    }

    #[verifier::spinoff_prover]
    pub(crate) fn parse_infix_expression(&mut self, left: Expression) -> (r: Result<
        Expression,
        ParseError,
    >)
        requires
            old(self).wf(),
        ensures
            final(self).wf(),
            ({
                let p = grammar::parse_infix_expression(
                    old(self)@.tokens,
                    old(self)@.position,
                    old(self)@.errors,
                    left@,
                );
                &&& expr_outcome(r) == p.result
                &&& moved(old(self)@, final(self)@, p.used, p.errors)
            }),
        decreases grammar::remaining(old(self)@.tokens, old(self)@.position), 1nat,
    {
        proof {
            reveal(grammar::parse_infix_expression);
        }
        let kind = self.kind_ahead(0);
        if kind == TokenKind::EOF {
            return Err(self.prefix_message());
        }
        self.next_token();
        match self.parse_expression(get_precedence(kind)) {
            Ok(right) => {
                let infix = InfixExpr {
                    operator: Self::literal(kind),
                    left: Some(Box::new(left)),
                    right: Some(Box::new(right)),
                    typ: Some(kind.type_of()),
                };
                assert(boxed_view(infix.right) == Some(Box::new(right@)));
                assert(boxed_view(infix.left) == Some(Box::new(left@)));
                Ok(Expression::Infix(infix))
            },
            Err(e) => Err(e),
        }
    }

    #[verifier::spinoff_prover]
    pub(crate) fn parse_grouped_expression(&mut self) -> (r: Result<Expression, ParseError>)
        requires
            old(self).wf(),
        ensures
            final(self).wf(),
            ({
                let p = grammar::parse_grouped_expression(
                    old(self)@.tokens,
                    old(self)@.position,
                    old(self)@.errors,
                );
                &&& expr_outcome(r) == p.result
                &&& moved(old(self)@, final(self)@, p.used, p.errors)
            }),
        decreases grammar::remaining(old(self)@.tokens, old(self)@.position), 1nat,
    {
        proof {
            reveal(grammar::parse_grouped_expression);
        }
        if self.current_token_is(TokenKind::EOF) {
            return Err(self.prefix_message());
        }
        self.next_token();
        let expression = self.parse_expression(Precedence::Lowest);
        match self.expected_peek(TokenKind::RParen) {
            Ok(_) => expression,
            Err(e) => Err(e),
        }
    }

    #[verifier::spinoff_prover]
    pub(crate) fn parse_expression_list(&mut self, closing: TokenKind) -> (r: Result<
        Vec<Expression>,
        ParseError,
    >)
        requires
            old(self).wf(),
            closing != TokenKind::EOF,
        ensures
            final(self).wf(),
            ({
                let p = grammar::parse_expression_list(
                    old(self)@.tokens,
                    old(self)@.position,
                    old(self)@.errors,
                    closing,
                );
                &&& exprs_outcome(r) == p.result
                &&& moved(old(self)@, final(self)@, p.used, p.errors)
            }),
        decreases grammar::remaining(old(self)@.tokens, old(self)@.position), 1nat,
    {
        proof {
            reveal(grammar::parse_expression_list);
        }
        let mut items: Vec<Expression> = Vec::new();
        if self.current_token_is(TokenKind::EOF) {
            return Err(self.prefix_message());
        }
        if self.peek_token_is(closing) {
            self.next_token();
            assert(exprs_view(items) =~= Seq::empty());
            return Ok(items);
        }
        self.next_token();
        match self.parse_expression(Precedence::Lowest) {
            Ok(expression) => {
                items.push(expression);
                assert(exprs_view(items) =~= seq![expression@]);
                self.parse_more_expressions(closing, items)
            },
            Err(e) => Err(e),
        }
    }

    #[verifier::spinoff_prover]
    pub(crate) fn parse_more_expressions(&mut self, closing: TokenKind, items: Vec<Expression>) -> (r:
        Result<Vec<Expression>, ParseError>)
        requires
            old(self).wf(),
            closing != TokenKind::EOF,
        ensures
            final(self).wf(),
            ({
                let p = grammar::parse_more_expressions(
                    old(self)@.tokens,
                    old(self)@.position,
                    old(self)@.errors,
                    closing,
                    exprs_view(items),
                );
                &&& exprs_outcome(r) == p.result
                &&& moved(old(self)@, final(self)@, p.used, p.errors)
            }),
        decreases grammar::remaining(old(self)@.tokens, old(self)@.position), 0nat,
    {
        let mut list = items;
        loop
            invariant
                self.wf(),
                closing != TokenKind::EOF,
                self@.tokens == old(self)@.tokens,
                old(self)@.position <= self@.position,
                ({
                    let here = grammar::parse_more_expressions(
                        self@.tokens,
                        self@.position,
                        self@.errors,
                        closing,
                        exprs_view(list),
                    );
                    let all = grammar::parse_more_expressions(
                        old(self)@.tokens,
                        old(self)@.position,
                        old(self)@.errors,
                        closing,
                        exprs_view(items),
                    );
                    &&& here.result == all.result
                    &&& here.errors == all.errors
                    &&& self@.position + here.used == old(self)@.position + all.used
                }),
            decreases grammar::remaining(self@.tokens, self@.position),
        {
            proof {
                reveal(grammar::parse_more_expressions);
            }
            if !self.peek_token_is(TokenKind::Comma) {
                return match self.expected_peek(closing) {
                    Ok(_) => Ok(list),
                    Err(e) => Err(e),
                };
            }
            self.next_token();
            self.next_token();
            let ghost before = exprs_view(list);
            match self.parse_expression(Precedence::Lowest) {
                Ok(expression) => {
                    list.push(expression);
                    assert(exprs_view(list) =~= before.push(expression@));
                },
                Err(e) => {
                    return Err(e);
                },
            }
        }
    }

    #[verifier::spinoff_prover]
    pub(crate) fn parse_array_literal(&mut self) -> (r: Result<Expression, ParseError>)
        requires
            old(self).wf(),
        ensures
            final(self).wf(),
            ({
                let p = grammar::parse_array_literal(
                    old(self)@.tokens,
                    old(self)@.position,
                    old(self)@.errors,
                );
                &&& expr_outcome(r) == p.result
                &&& moved(old(self)@, final(self)@, p.used, p.errors)
            }),
        decreases grammar::remaining(old(self)@.tokens, old(self)@.position), 2nat,
    {
        proof {
            reveal(grammar::parse_array_literal);
        }
        match self.parse_expression_list(TokenKind::RSqBracket) {
            Ok(items) => Ok(Expression::Array(ArrayExpr::new(items))),
            Err(e) => Err(e),
        }
    }

    #[verifier::spinoff_prover]
    pub(crate) fn parse_call_expression(&mut self, function: Expression) -> (r: Result<
        Expression,
        ParseError,
    >)
        requires
            old(self).wf(),
        ensures
            final(self).wf(),
            ({
                let p = grammar::parse_call_expression(
                    old(self)@.tokens,
                    old(self)@.position,
                    old(self)@.errors,
                    function@,
                );
                &&& expr_outcome(r) == p.result
                &&& moved(old(self)@, final(self)@, p.used, p.errors)
            }),
        decreases grammar::remaining(old(self)@.tokens, old(self)@.position), 2nat,
    {
        proof {
            reveal(grammar::parse_call_expression);
        }
        match self.parse_expression_list(TokenKind::RParen) {
            Ok(arguments) => Ok(
                Expression::Call(CallExpr { function: Box::new(function), arguments }),
            ),
            Err(e) => Err(e),
        }
    }

    #[verifier::spinoff_prover]
    pub(crate) fn parse_index_expression(&mut self, left: Expression) -> (r: Result<
        Expression,
        ParseError,
    >)
        requires
            old(self).wf(),
        ensures
            final(self).wf(),
            ({
                let p = grammar::parse_index_expression(
                    old(self)@.tokens,
                    old(self)@.position,
                    old(self)@.errors,
                    left@,
                );
                &&& expr_outcome(r) == p.result
                &&& moved(old(self)@, final(self)@, p.used, p.errors)
            }),
        decreases grammar::remaining(old(self)@.tokens, old(self)@.position), 1nat,
    {
        proof {
            reveal(grammar::parse_index_expression);
        }
        if self.current_token_is(TokenKind::EOF) {
            return Err(self.prefix_message());
        }
        self.next_token();
        let index = match self.parse_expression(Precedence::Lowest) {
            Ok(index) => index,
            Err(e) => {
                return Err(e);
            },
        };
        match self.expected_peek(TokenKind::RSqBracket) {
            Ok(_) => Ok(Expression::Index(IndexExpr::new(left, index))),
            Err(e) => Err(e),
        }
    }
}

} // verus!
