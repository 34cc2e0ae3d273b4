//! The parser: from tokens to the syntax tree.
//!
//! The parser reads all the tokens of its lexer and then parses them by
//! precedence climbing.  What it makes of them is fixed by the functions of
//! [`grammar`]; each method here computes the function of the same name.  A
//! statement that does not parse never stops the parser: it leaves a
//! diagnostic, and parsing resumes one token further on.
//!
//! The other modules prove that a tree survives printing.  [`unparse`]
//! gives the tokens of a tree, [`image`] shows that every tree that the
//! parser gives has such tokens, [`roundtrip`] that these tokens parse to
//! the tree, [`reading`] and [`rereading`] that the lexer reads the text of
//! the tree as these tokens, and [`laws`] puts the parts together.

pub mod errors;
pub mod expressions;
pub mod forms;
pub mod grammar;
pub mod image;
pub mod laws;
pub mod precedence;
pub mod reading;
pub mod rereading;
pub mod roundtrip;
pub mod statements;
pub mod unparse;

use crate::ast::expression::Expression;
use crate::ast::identifier::Identifier;
use crate::ast::model::{
    exprs_view, idents_view, stmts_view, strings_view, ExprView, IdentView, StmtView,
};
use crate::ast::program::Program;
use crate::ast::statement::Statement;
use crate::lexer::token::{token_views, Token, TokenKind, TokenView};
use crate::lexer::{tokens_from, Lexer};
use crate::parser::errors::{ParseError, ParseErrorView};
use vstd::prelude::*;

verus! {

/// The parser: the tokens, the position of the token it stands on, and the
/// diagnostics gathered so far.
#[derive(Debug)]
pub struct Parser {
    pub(crate) tokens: Vec<Token>,
    pub(crate) position: usize,
    pub(crate) errors: Vec<String>,
}

/// The model of a [`Parser`].
pub struct ParserView {
    pub tokens: Seq<TokenView>,
    pub position: nat,
    pub errors: Seq<Seq<char>>,
}

impl View for Parser {
    type V = ParserView;

    open(crate) spec fn view(&self) -> ParserView {
        ParserView {
            tokens: token_views(self.tokens@),
            position: self.position as nat,
            errors: strings_view(self.errors),
        }
    }
}

/// What parsing makes of the source text `source` of the file `file`: the
/// statements and the diagnostics.
pub open spec fn parsed(source: Seq<char>, file: Seq<char>) -> grammar::ParsedProgram {
    grammar::parse_program(tokens_from(source, file, 0), 0, Seq::empty(), Seq::empty())
}

/// Parses the source text `input` of the file `filename`.
pub fn parse(input: String, filename: String) -> (program: Program)
    requires
        input@.len() < usize::MAX,
    ensures
        program@.statements == parsed(input@, filename@).statements,
        program@.errors == parsed(input@, filename@).errors,
{
    let parser = Parser::new(Lexer::new(input, filename));
    parser.parse_program()
}

/// The model of the outcome of parsing an expression.
pub open spec fn expr_outcome(r: Result<Expression, ParseError>) -> Result<
    ExprView,
    ParseErrorView,
> {
    match r {
        Ok(e) => Ok(e@),
        Err(e) => Err(e@),
    }
}

/// The model of the outcome of parsing a statement.
pub open spec fn stmt_outcome(r: Result<Statement, ParseError>) -> Result<
    StmtView,
    ParseErrorView,
> {
    match r {
        Ok(s) => Ok(s@),
        Err(e) => Err(e@),
    }
}

/// The model of the outcome of parsing an identifier.
pub open spec fn ident_outcome(r: Result<Identifier, ParseError>) -> Result<
    IdentView,
    ParseErrorView,
> {
    match r {
        Ok(i) => Ok(i@),
        Err(e) => Err(e@),
    }
}

/// The model of the outcome of parsing a list of identifiers.
pub open spec fn idents_outcome(r: Result<Vec<Identifier>, ParseError>) -> Result<
    Seq<IdentView>,
    ParseErrorView,
> {
    match r {
        Ok(v) => Ok(idents_view(v)),
        Err(e) => Err(e@),
    }
}

/// The model of the outcome of parsing a list of expressions.
pub open spec fn exprs_outcome(r: Result<Vec<Expression>, ParseError>) -> Result<
    Seq<ExprView>,
    ParseErrorView,
> {
    match r {
        Ok(v) => Ok(exprs_view(v)),
        Err(e) => Err(e@),
    }
}

/// Whether the parser went from `before` to `after` by moving `used` tokens
/// forward and ending with the diagnostics `errors`.
pub open spec fn moved(
    before: ParserView,
    after: ParserView,
    used: nat,
    errors: Seq<Seq<char>>,
) -> bool {
    &&& after.tokens == before.tokens
    &&& after.position == before.position + used
    &&& after.errors == errors
}

pub(crate) fn message(text: String) -> (e: ParseError)
    ensures
        e@ == ParseErrorView::Message(text@),
{
    ParseError::Message(text)
}

impl Parser {
    /// The parser's invariant: it stands on a token or just behind the last.
    pub open(crate) spec fn wf(&self) -> bool {
        self.position <= self.tokens.len()
    }

    /// A parser over all the tokens that `lexer` still has to give.
    pub fn new(lexer: Lexer) -> (parser: Self)
        requires
            lexer.wf(),
        ensures
            parser.wf(),
            parser@ == (ParserView {
                tokens: tokens_from(lexer@.input, lexer@.filename, lexer@.position),
                position: 0,
                errors: Seq::empty(),
            }),
    {
        let mut lexer = lexer;
        let tokens = lexer.tokens();
        let parser = Self { tokens, position: 0, errors: Vec::new() };
        assert(parser@.errors =~= Seq::empty());
        parser
    }

    /// Parses the whole input: every statement up to the end, and every
    /// diagnostic on the way.
    #[verifier::spinoff_prover]
    pub fn parse_program(self) -> (program: Program)
        requires
            self.wf(),
        ensures
            program@ == ({
                let p = grammar::parse_program(
                    self@.tokens,
                    self@.position,
                    self@.errors,
                    Seq::empty(),
                );
                crate::ast::model::ProgramView { statements: p.statements, errors: p.errors }
            }),
    {
        let mut parser = self;
        let mut statements: Vec<Statement> = Vec::new();
        let ghost ts = parser@.tokens;
        assert(stmts_view(statements) =~= Seq::empty());
        let ghost all = grammar::parse_program(ts, parser@.position, parser@.errors, Seq::empty());
        loop
            invariant_except_break
                parser.wf(),
                parser@.tokens == ts,
                grammar::parse_program(ts, parser@.position, parser@.errors, stmts_view(statements))
                    == all,
            ensures
                all.statements == stmts_view(statements),
                all.errors == parser@.errors,
            decreases grammar::remaining(ts, parser@.position),
        {
            proof {
                reveal(grammar::parse_program);
            }
            let ghost before = stmts_view(statements);
            match parser.parse_statement() {
                Ok(statement) => {
                    statements.push(statement);
                    assert(stmts_view(statements) =~= before.push(statement@));
                },
                Err(e) => match e {
                    ParseError::Eof => {
                        break ;
                    },
                    ParseError::Message(text) => {
                        let ghost recorded = parser@.errors;
                        parser.errors.push(text);
                        assert(parser@.errors =~= recorded.push(text@));
                    },
                },
            }
            if parser.position < parser.tokens.len() {
                parser.next_token();
            } else {
                break ;
            }
        }
        Program::new(statements, parser.errors)
    }

    /// The kind of the token `n` places behind the position.
    pub(crate) fn kind_ahead(&self, n: usize) -> (kind: TokenKind)
        requires
            self.wf(),
        ensures
            kind == grammar::kind_at(self@.tokens, (self@.position + n) as nat),
    {
        if n < self.tokens.len() - self.position {
            self.tokens[self.position + n].kind()
        } else {
            TokenKind::EOF
        }
    }

    /// The text of the token `n` places behind the position.
    pub(crate) fn text_ahead(&self, n: usize) -> (text: Option<String>)
        requires
            self.wf(),
        ensures
            crate::lexer::token::text_view(text) == grammar::text_at(
                self@.tokens,
                (self@.position + n) as nat,
            ),
    {
        if n < self.tokens.len() - self.position {
            match self.tokens[self.position + n].text() {
                Some(t) => Some(t.clone()),
                None => None,
            }
        } else {
            None
        }
    }

    /// The token `n` places behind the position as diagnostics print it.
    pub(crate) fn display_ahead(&self, n: usize) -> (text: String)
        requires
            self.wf(),
        ensures
            text@ == grammar::display_at(self@.tokens, (self@.position + n) as nat),
    {
        if n < self.tokens.len() - self.position {
            self.tokens[self.position + n].to_string()
        } else {
            String::from_str(TokenKind::EOF.as_str())
        }
    }

    /// The diagnostic for a token of kind `kind` that is not where it was
    /// expected, `n` places behind the position.
    pub(crate) fn expected_message(&self, kind: TokenKind, n: usize) -> (e: ParseError)
        requires
            self.wf(),
        ensures
            e@ == ParseErrorView::Message(
                grammar::expected_message(kind, self@.tokens, (self@.position + n) as nat),
            ),
    {
        let mut text = String::from_str("expected ");
        text.append(kind.as_str());
        text.append(", got ");
        text.append(self.display_ahead(n).as_str());
        message(text)
    }

    /// The diagnostic for the token at the position, with which no
    /// expression starts.
    pub(crate) fn prefix_message(&self) -> (e: ParseError)
        requires
            self.wf(),
        ensures
            e@ == ParseErrorView::Message(grammar::prefix_message(self@.tokens, self@.position)),
    {
        let mut text = String::from_str("error expected a prefix, got ");
        text.append(self.display_ahead(0).as_str());
        message(text)
    }

    /// Moves onto the next token, if there is one.
    pub(crate) fn next_token(&mut self)
        requires
            old(self).wf(),
        ensures
            final(self).wf(),
            final(self).tokens == old(self).tokens,
            final(self).errors == old(self).errors,
            final(self).position == (if old(self).position < old(self).tokens.len() {
                old(self).position + 1
            } else {
                old(self).position as int
            }),
    {
        if self.position < self.tokens.len() {
            self.position += 1;
        }
    }

    /// Moves onto the next token if it is of kind `kind`; otherwise stays and
    /// reports what was expected.
    pub(crate) fn expected_peek(&mut self, kind: TokenKind) -> (r: Result<(), ParseError>)
        requires
            old(self).wf(),
            kind != TokenKind::EOF,
        ensures
            final(self).wf(),
            final(self).tokens == old(self).tokens,
            final(self).errors == old(self).errors,
            r is Ok <==> grammar::kind_at(old(self)@.tokens, old(self)@.position + 1) == kind,
            r is Ok ==> final(self).position == old(self).position + 1,
            r matches Err(e) ==> final(self).position == old(self).position && e@
                == ParseErrorView::Message(
                grammar::expected_message(kind, old(self)@.tokens, old(self)@.position + 1),
            ),
    {
        if self.peek_token_is(kind) {
            self.next_token();
            Ok(())
        } else {
            Err(self.expected_message(kind, 1))
        }
    }

    pub(crate) fn peek_token_is(&self, kind: TokenKind) -> (b: bool)
        requires
            self.wf(),
        ensures
            b == (grammar::kind_at(self@.tokens, self@.position + 1) == kind),
    {
        self.kind_ahead(1) == kind
    }

    pub(crate) fn current_token_is(&self, kind: TokenKind) -> (b: bool)
        requires
            self.wf(),
        ensures
            b == (grammar::kind_at(self@.tokens, self@.position) == kind),
    {
        self.kind_ahead(0) == kind
    }

    /// Tells whether a type keyword follows the token at the position.
    pub(crate) fn has_type(&self) -> (b: bool)
        requires
            self.wf(),
        ensures
            b == grammar::is_type_kind(grammar::kind_at(self@.tokens, self@.position + 1)),
    {
        self.peek_token_is(TokenKind::Int) || self.peek_token_is(TokenKind::Str)
            || self.peek_token_is(TokenKind::Bool) || self.peek_token_is(TokenKind::Array)
    }

    /// Moves onto the semicolon that follows the position, if one does.
    pub(crate) fn skip_semicolon(&mut self)
        requires
            old(self).wf(),
        ensures
            final(self).wf(),
            moved(
                old(self)@,
                final(self)@,
                grammar::semicolon_after(old(self)@.tokens, old(self)@.position),
                old(self)@.errors,
            ),
    {
        if self.peek_token_is(TokenKind::Semicolon) {
            self.next_token();
        }
    }

    pub(crate) fn create_identifier(&mut self, skip_type: bool) -> (r: Result<Identifier, ParseError>)
        requires
            old(self).wf(),
        ensures
            final(self).wf(),
            ({
                let p = grammar::create_identifier(
                    old(self)@.tokens,
                    old(self)@.position,
                    old(self)@.errors,
                    skip_type,
                );
                &&& ident_outcome(r) == p.result
                &&& moved(old(self)@, final(self)@, p.used, p.errors)
            }),
    {
        if !self.current_token_is(TokenKind::Ident) {
            let mut text = String::from_str("expected identifier, got ");
            text.append(self.display_ahead(0).as_str());
            return Err(message(text));
        }
        match self.text_ahead(0) {
            Some(name) => {
                let mut identifier = Identifier::new(name);
                if self.has_type() {
                    let typ = self.kind_ahead(1).type_of();
                    if skip_type {
                        self.next_token();
                    }
                    identifier.set_type(typ);
                }
                Ok(identifier)
            },
            None => {
                let mut text = String::from_str("expected identifier, got ");
                text.append(self.display_ahead(0).as_str());
                Err(message(text))
            },
        }
    }
}

} // verus!
