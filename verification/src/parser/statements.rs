//! Statements and blocks.

use crate::ast::expression::Expression;
use crate::ast::model::StmtView;
use crate::ast::statement::Statement;
use crate::ast::stmt::block_stmt::BlockStatement;
use crate::ast::stmt::expression_stmt::ExpressionStatement;
use crate::ast::stmt::let_stmt::Let;
use crate::ast::stmt::return_stmt::Return;
use crate::ast::stmt::var_stmt::Var;
use crate::ast::types::Type;
use crate::lexer::token::TokenKind;
use crate::parser::errors::{ParseError, ParseErrorView};
use crate::parser::precedence::Precedence;
use vstd::prelude::*;

use crate::parser::{message, moved, stmt_outcome, Parser};
use crate::parser::grammar;


verus! {

impl Parser {
    #[verifier::spinoff_prover]
    pub(crate) fn parse_statement(&mut self) -> (r: Result<Statement, ParseError>)
        requires
            old(self).wf(),
        ensures
            final(self).wf(),
            ({
                let p = grammar::parse_statement(
                    old(self)@.tokens,
                    old(self)@.position,
                    old(self)@.errors,
                );
                &&& stmt_outcome(r) == p.result
                &&& moved(old(self)@, final(self)@, p.used, p.errors)
            }),
        decreases grammar::remaining(old(self)@.tokens, old(self)@.position), 6nat,
    {
        proof {
            reveal(grammar::parse_statement);
        }
        match self.kind_ahead(0) {
            TokenKind::Let => self.parse_let_var(true),
            TokenKind::Var => self.parse_let_var(false),
            TokenKind::Return => self.parse_return(),
            TokenKind::EOF => Err(ParseError::Eof),
            _ => self.parse_expression_statement(),
        }
    }

    /// The diagnostic for a binding whose value does not parse.
    pub(crate) fn binding_message(keyword: &String, typed: bool, e: ParseError) -> (r: ParseError)
        ensures
            r@ == ParseErrorView::Message(grammar::binding_message(keyword@, typed, e@)),
    {
        let mut text = String::from_str("error on parse expression ");
        text.append(keyword.as_str());
        if !typed {
            text.append("... ");
            match e {
                ParseError::Message(m) => text.append(m.as_str()),
                ParseError::Eof => {
                    assert(text@ + Seq::<char>::empty() =~= text@);
                },
            }
        }
        message(text)
    }

    /// The diagnostic for a value whose resolved type is not the declared
    /// one.
    pub(crate) fn mismatch_message(declared: Type, found: Type) -> (r: ParseError)
        ensures
            r@ == ParseErrorView::Message(grammar::mismatch_message(declared, found)),
    {
        let mut text = String::from_str("expected ");
        text.append(declared.as_str());
        text.append(", got ");
        text.append(found.as_str());
        message(text)
    }

    #[verifier::spinoff_prover]
    pub(crate) fn parse_let_var(&mut self, is_let: bool) -> (r: Result<Statement, ParseError>)
        requires
            old(self).wf(),
        ensures
            final(self).wf(),
            ({
                let p = grammar::parse_let_var(
                    old(self)@.tokens,
                    old(self)@.position,
                    old(self)@.errors,
                    is_let,
                );
                &&& stmt_outcome(r) == p.result
                &&& moved(old(self)@, final(self)@, p.used, p.errors)
            }),
        decreases grammar::remaining(old(self)@.tokens, old(self)@.position), 5nat,
    {
        proof {
            reveal(grammar::parse_let_var);
        }
        let keyword = self.display_ahead(0);
        match self.expected_peek(TokenKind::Ident) {
            Ok(_) => {},
            Err(e) => {
                return Err(e);
            },
        }
        let mut identifier = match self.create_identifier(false) {
            Ok(identifier) => identifier,
            Err(e) => {
                return Err(e);
            },
        };
        let typed = self.has_type();
        let declared = self.kind_ahead(1).type_of();
        if typed {
            self.next_token();
        }
        match self.expected_peek(TokenKind::Assign) {
            Ok(_) => {},
            Err(e) => {
                return Err(e);
            },
        }
        self.next_token();
        let expression = match self.parse_expression(Precedence::Lowest) {
            Ok(expression) => expression,
            Err(e) => {
                return Err(Self::binding_message(&keyword, typed, e));
            },
        };
        let typ = expression.get_type();
        if typed && declared != typ {
            return Err(Self::mismatch_message(declared, typ));
        }
        self.skip_semicolon();
        // The name carries the type of the binding where source text can
        // name it, whether the source declared it or not.
        identifier.typ = if typ.declarable() {
            Some(typ)
        } else {
            None
        };
        if is_let {
            Ok(Statement::Let(Let::new(typ, identifier, expression)))
        } else {
            Ok(Statement::Var(Var::new(typ, identifier, expression)))
        }
    }

    #[verifier::spinoff_prover]
    pub(crate) fn parse_return(&mut self) -> (r: Result<Statement, ParseError>)
        requires
            old(self).wf(),
        ensures
            final(self).wf(),
            ({
                let p = grammar::parse_return(
                    old(self)@.tokens,
                    old(self)@.position,
                    old(self)@.errors,
                );
                &&& stmt_outcome(r) == p.result
                &&& moved(old(self)@, final(self)@, p.used, p.errors)
            }),
        decreases grammar::remaining(old(self)@.tokens, old(self)@.position), 5nat,
    {
        proof {
            reveal(grammar::parse_return);
        }
        if !self.current_token_is(TokenKind::Return) {
            return Err(self.expected_message(TokenKind::Return, 0));
        }
        self.next_token();
        let value = match self.parse_expression(Precedence::Lowest) {
            Ok(value) => value,
            Err(e) => {
                return Err(e);
            },
        };
        self.skip_semicolon();
        Ok(Statement::Return(Return::new(Some(value))))
    }

    #[verifier::spinoff_prover]
    pub(crate) fn parse_expression_statement(&mut self) -> (r: Result<Statement, ParseError>)
        requires
            old(self).wf(),
        ensures
            final(self).wf(),
            ({
                let p = grammar::parse_expression_statement(
                    old(self)@.tokens,
                    old(self)@.position,
                    old(self)@.errors,
                );
                &&& stmt_outcome(r) == p.result
                &&& moved(old(self)@, final(self)@, p.used, p.errors)
            }),
        decreases grammar::remaining(old(self)@.tokens, old(self)@.position), 5nat,
    {
        proof {
            reveal(grammar::parse_expression_statement);
        }
        let expression = match self.parse_expression(Precedence::Lowest) {
            Ok(expression) => expression,
            Err(e) => {
                return Err(e);
            },
        };
        self.skip_semicolon();
        Ok(
            Statement::Expression(
                ExpressionStatement { expression: Some(expression), typ: Type::Unknown },
            ),
        )
    }

    /// Parses the statements up to the closing brace or the end of the
    /// input, adds them to `block`, and records what does not parse.
    #[verifier::spinoff_prover]
    pub(crate) fn parse_statements(&mut self, block: &mut BlockStatement)
        requires
            old(self).wf(),
        ensures
            final(self).wf(),
            ({
                let p = grammar::parse_statements(
                    old(self)@.tokens,
                    old(self)@.position,
                    old(self)@.errors,
                    old(block)@,
                );
                &&& final(block)@ == p.statements
                &&& moved(old(self)@, final(self)@, p.used, p.errors)
            }),
        decreases grammar::remaining(old(self)@.tokens, old(self)@.position), 7nat,
    {
        loop
            invariant
                self.wf(),
                self@.tokens == old(self)@.tokens,
                old(self)@.position <= self@.position,
                ({
                    let here = grammar::parse_statements(
                        self@.tokens,
                        self@.position,
                        self@.errors,
                        block@,
                    );
                    let all = grammar::parse_statements(
                        old(self)@.tokens,
                        old(self)@.position,
                        old(self)@.errors,
                        old(block)@,
                    );
                    &&& here.statements == all.statements
                    &&& here.errors == all.errors
                    &&& self@.position + here.used == old(self)@.position + all.used
                }),
            decreases grammar::remaining(self@.tokens, self@.position),
        {
            proof {
                reveal(grammar::parse_statements);
            }
            let kind = self.kind_ahead(0);
            if kind == TokenKind::Rbrace || kind == TokenKind::EOF {
                return ;
            }
            let ghost before = block@;
            match self.parse_statement() {
                Ok(statement) => {
                    block.push_stmt(statement);
                    assert(block@ =~= before.push(statement@));
                },
                Err(e) => match e {
                    ParseError::Message(text) => {
                        let ghost recorded = self@.errors;
                        self.errors.push(text);
                        assert(self@.errors =~= recorded.push(text@));
                    },
                    ParseError::Eof => {},
                },
            }
            if self.current_token_is(TokenKind::EOF) {
                return ;
            }
            self.next_token();
        }
    }

    #[verifier::spinoff_prover]
    pub(crate) fn parse_block_statement(&mut self) -> (block: BlockStatement)
        requires
            old(self).wf(),
        ensures
            final(self).wf(),
            ({
                let p = grammar::parse_block_statement(
                    old(self)@.tokens,
                    old(self)@.position,
                    old(self)@.errors,
                );
                &&& block@ == p.statements
                &&& moved(old(self)@, final(self)@, p.used, p.errors)
            }),
        decreases grammar::remaining(old(self)@.tokens, old(self)@.position), 0nat,
    {
        proof {
            reveal(grammar::parse_block_statement);
        }
        let mut block = BlockStatement::new();
        assert(block@ =~= Seq::<StmtView>::empty());
        if self.current_token_is(TokenKind::EOF) {
            return block;
        }
        self.next_token();
        self.parse_statements(&mut block);
        block
    }
}

} // verus!
