//! The grammar: what the parser makes of a sequence of tokens.
//!
//! Each function here says, for one syntactic form, what is parsed from the
//! tokens `ts` when the parser stands at position `pos` and has gathered the
//! diagnostics `errors`: the result, how many tokens the parser moves
//! forward, and the diagnostics it holds afterwards.  Expressions are parsed by precedence climbing: a prefix form, then
//! operators that bind tighter than the limit the caller gave.
//!
//! The parser stands on a token, not between two: after a form was parsed it
//! stands on the form's last token.

use crate::ast::model::{expr_type, ExprView, IdentView, StmtView};
use crate::ast::types::Type;
use crate::lexer::token::{TokenKind, TokenView};
use crate::parser::errors::ParseErrorView;
use crate::parser::precedence::{precedence_of, Precedence};
use crate::text::parse_int;
use vstd::prelude::*;

verus! {

/// The outcome of parsing one form.
pub struct Parsed<T> {
    /// The form, or why there is none.
    pub result: Result<T, ParseErrorView>,
    /// How many tokens the parser moved forward.
    pub used: nat,
    /// The diagnostics gathered so far, those of this form included.
    pub errors: Seq<Seq<char>>,
}

/// The form `value`.
pub open spec fn done<T>(value: T, used: nat, errors: Seq<Seq<char>>) -> Parsed<T> {
    Parsed { result: Ok(value), used, errors }
}

/// No form, for the reason that `message` gives.
pub open spec fn fail<T>(message: Seq<char>, used: nat, errors: Seq<Seq<char>>) -> Parsed<T> {
    Parsed { result: Err(ParseErrorView::Message(message)), used, errors }
}

/// No form, for the reason `e`.
pub open spec fn stop<T>(e: ParseErrorView, used: nat, errors: Seq<Seq<char>>) -> Parsed<T> {
    Parsed { result: Err(e), used, errors }
}

/// The kind of the token at `i`; past the last token, the end of the input.
pub open spec fn kind_at(ts: Seq<TokenView>, i: nat) -> TokenKind {
    if i < ts.len() {
        ts[i as int].kind
    } else {
        TokenKind::EOF
    }
}

/// The text of the token at `i`, if it carries one.
pub open spec fn text_at(ts: Seq<TokenView>, i: nat) -> Option<Seq<char>> {
    if i < ts.len() {
        ts[i as int].text
    } else {
        None
    }
}

/// The token at `i` as diagnostics print it.
pub open spec fn display_at(ts: Seq<TokenView>, i: nat) -> Seq<char> {
    if i < ts.len() {
        ts[i as int].display()
    } else {
        TokenKind::EOF.symbol()
    }
}

/// How many tokens are left from `pos` on.
pub open spec fn remaining(ts: Seq<TokenView>, pos: nat) -> nat {
    if pos < ts.len() {
        (ts.len() - pos) as nat
    } else {
        0
    }
}

/// Whether the kind is a keyword that names a type.
pub open spec fn is_type_kind(kind: TokenKind) -> bool {
    kind == TokenKind::Int || kind == TokenKind::Str || kind == TokenKind::Bool || kind
        == TokenKind::Array
}

/// The diagnostic for a token of kind `kind` that was expected at `i` and is
/// not there.
pub open spec fn expected_message(kind: TokenKind, ts: Seq<TokenView>, i: nat) -> Seq<char> {
    "expected "@ + kind.symbol() + ", got "@ + display_at(ts, i)
}

/// The diagnostic for a token with which no expression starts.
pub open spec fn prefix_message(ts: Seq<TokenView>, i: nat) -> Seq<char> {
    "error expected a prefix, got "@ + display_at(ts, i)
}

/// The diagnostic for a binding whose value does not parse.  Where the
/// binding declares no type, the diagnostic quotes the reason.
pub open spec fn binding_message(keyword: Seq<char>, typed: bool, e: ParseErrorView) -> Seq<char> {
    if typed {
        "error on parse expression "@ + keyword
    } else {
        "error on parse expression "@ + keyword + "... "@ + (match e {
            ParseErrorView::Message(m) => m,
            ParseErrorView::Eof => Seq::empty(),
        })
    }
}

/// The diagnostic for a value whose resolved type is not the declared one.
pub open spec fn mismatch_message(declared: Type, found: Type) -> Seq<char> {
    "expected "@ + declared.name() + ", got "@ + found.name()
}

/// One more token, if a semicolon follows the token at `end`.
pub open spec fn semicolon_after(ts: Seq<TokenView>, end: nat) -> nat {
    if kind_at(ts, end + 1) == TokenKind::Semicolon {
        1
    } else {
        0
    }
}

/// The identifier at `pos`.  If a type keyword follows it, the identifier
/// takes that type, and the parser moves onto the keyword if `skip_type`
/// says so.
pub open spec fn create_identifier(
    ts: Seq<TokenView>,
    pos: nat,
    errors: Seq<Seq<char>>,
    skip_type: bool,
) -> Parsed<IdentView> {
    match text_at(ts, pos) {
        Some(name) if kind_at(ts, pos) == TokenKind::Ident => {
            if is_type_kind(kind_at(ts, pos + 1)) {
                done(
                    IdentView { value: name, typ: Some(kind_at(ts, pos + 1).to_type()) },
                    if skip_type {
                        1
                    } else {
                        0
                    },
                    errors,
                )
            } else {
                done(IdentView { value: name, typ: None }, 0, errors)
            }
        },
        _ => fail("expected identifier, got "@ + display_at(ts, pos), 0, errors),
    }
}

/// The identifier at `pos` as an expression.  A name that stands for a
/// value carries no type.
pub open spec fn parse_identifier(ts: Seq<TokenView>, pos: nat, errors: Seq<Seq<char>>) -> Parsed<
    ExprView,
> {
    match text_at(ts, pos) {
        Some(name) if kind_at(ts, pos) == TokenKind::Ident => done(
            ExprView::Identifier(IdentView { value: name, typ: None }),
            0,
            errors,
        ),
        _ => fail("expected identifier, got "@ + display_at(ts, pos), 0, errors),
    }
}

/// The numeric literal at `pos`.  A literal that does not fit a 64-bit
/// signed integer is an error.
pub open spec fn parse_number_literal(
    ts: Seq<TokenView>,
    pos: nat,
    errors: Seq<Seq<char>>,
) -> Parsed<ExprView> {
    match text_at(ts, pos) {
        Some(text) if kind_at(ts, pos) == TokenKind::Number => match parse_int(text) {
            Some(value) => done(ExprView::Int(value), 0, errors),
            None => fail("fail on parse value: "@ + display_at(ts, pos), 0, errors),
        },
        _ => fail("fail on parse value: "@ + display_at(ts, pos), 0, errors),
    }
}

/// The boolean literal at `pos`.
pub open spec fn parse_bool_literal(ts: Seq<TokenView>, pos: nat, errors: Seq<Seq<char>>) -> Parsed<
    ExprView,
> {
    if kind_at(ts, pos) == TokenKind::True {
        done(ExprView::Bool(true), 0, errors)
    } else if kind_at(ts, pos) == TokenKind::False {
        done(ExprView::Bool(false), 0, errors)
    } else {
        fail("expected boolean value got: "@ + display_at(ts, pos), 0, errors)
    }
}

/// The string literal at `pos`.
pub open spec fn parse_string_literal(
    ts: Seq<TokenView>,
    pos: nat,
    errors: Seq<Seq<char>>,
) -> Parsed<ExprView> {
    match text_at(ts, pos) {
        Some(text) if kind_at(ts, pos) == TokenKind::String => done(ExprView::Str(text), 0, errors),
        _ => fail("expected string value got: "@ + display_at(ts, pos), 0, errors),
    }
}

/// The parameters behind the one that ends at `pos`: as long as a comma
/// follows, another identifier, and then the closing bracket.  `acc` holds
/// the parameters read so far.
#[verifier::opaque]
pub open spec fn parse_more_parameters(
    ts: Seq<TokenView>,
    pos: nat,
    errors: Seq<Seq<char>>,
    acc: Seq<IdentView>,
) -> Parsed<Seq<IdentView>>
    decreases remaining(ts, pos),
{
    if kind_at(ts, pos + 1) == TokenKind::Comma {
        let r = create_identifier(ts, pos + 2, errors, true);
        match r.result {
            Ok(i) => {
                let rest = parse_more_parameters(ts, pos + 2 + r.used, r.errors, acc.push(i));
                Parsed { result: rest.result, used: 2 + r.used + rest.used, errors: rest.errors }
            },
            Err(e) => stop(e, 2 + r.used, r.errors),
        }
    } else if kind_at(ts, pos + 1) == TokenKind::RParen {
        done(acc, 1, errors)
    } else {
        fail(expected_message(TokenKind::RParen, ts, pos + 1), 0, errors)
    }
}

/// The parameter list whose opening bracket is at `pos`.
pub open spec fn parse_function_parameters(
    ts: Seq<TokenView>,
    pos: nat,
    errors: Seq<Seq<char>>,
) -> Parsed<Seq<IdentView>> {
    if kind_at(ts, pos) == TokenKind::EOF {
        fail(prefix_message(ts, pos), 0, errors)
    } else if kind_at(ts, pos + 1) == TokenKind::RParen {
        done(Seq::empty(), 1, errors)
    } else {
        let r = create_identifier(ts, pos + 1, errors, true);
        match r.result {
            Ok(i) => {
                let rest = parse_more_parameters(ts, pos + 1 + r.used, r.errors, seq![i]);
                Parsed { result: rest.result, used: 1 + r.used + rest.used, errors: rest.errors }
            },
            Err(e) => stop(e, 1 + r.used, r.errors),
        }
    }
}

/// The declared result type of a function, from the keyword that names it.
pub open spec fn return_type(kind: TokenKind) -> Type {
    match kind {
        TokenKind::Bool => Type::Bool,
        TokenKind::Int => Type::Int,
        TokenKind::Str => Type::String,
        _ => Type::Unknown,
    }
}

/// The forms that an operator between two operands can introduce.
pub enum InfixForm {
    /// A binary operator or an assignment.
    Binary,
    /// The argument list of a call.
    Call,
    /// The index behind an array or a string.
    Index,
}

/// The form that a token introduces when it follows an operand.
pub open spec fn infix_form(kind: TokenKind) -> Option<InfixForm> {
    match kind {
        TokenKind::Plus
        | TokenKind::Minus
        | TokenKind::Slash
        | TokenKind::Asterisk
        | TokenKind::Eq
        | TokenKind::Diff
        | TokenKind::Lt
        | TokenKind::Gt
        | TokenKind::Gte
        | TokenKind::Lte
        | TokenKind::And
        | TokenKind::Or
        | TokenKind::Assign => Some(InfixForm::Binary),
        TokenKind::LParen => Some(InfixForm::Call),
        TokenKind::LSqBracket => Some(InfixForm::Index),
        _ => None,
    }
}

/// The statement that starts at `pos`.  At the end of the input there is
/// none, which is no diagnostic.
#[verifier::opaque]
pub open spec fn parse_statement(ts: Seq<TokenView>, pos: nat, errors: Seq<Seq<char>>) -> Parsed<
    StmtView,
>
    decreases remaining(ts, pos), 6nat,
{
    match kind_at(ts, pos) {
        TokenKind::Let => parse_let_var(ts, pos, errors, true),
        TokenKind::Var => parse_let_var(ts, pos, errors, false),
        TokenKind::Return => parse_return(ts, pos, errors),
        TokenKind::EOF => stop(ParseErrorView::Eof, 0, errors),
        _ => parse_expression_statement(ts, pos, errors),
    }
}

/// The statement that binds `name` to `value`.
pub open spec fn binding(is_let: bool, name: Seq<char>, value: ExprView) -> StmtView {
    if is_let {
        StmtView::Let { name, typ: expr_type(value), value }
    } else {
        StmtView::Var { name, typ: expr_type(value), value }
    }
}

/// The `let` or `var` statement whose keyword is at `pos`: the name, a type
/// if one is declared, `=`, the value, and a semicolon if one follows.  A
/// declared type that differs from the resolved type of the value is an
/// error.
#[verifier::opaque]
pub open spec fn parse_let_var(
    ts: Seq<TokenView>,
    pos: nat,
    errors: Seq<Seq<char>>,
    is_let: bool,
) -> Parsed<StmtView>
    decreases remaining(ts, pos), 5nat,
{
    if kind_at(ts, pos + 1) != TokenKind::Ident {
        fail(expected_message(TokenKind::Ident, ts, pos + 1), 0, errors)
    } else {
        match create_identifier(ts, pos + 1, errors, false).result {
            Err(e) => stop(e, 1, errors),
            Ok(name) => {
                let typed = is_type_kind(kind_at(ts, pos + 2));
                let at: nat = if typed {
                    2
                } else {
                    1
                };
                if kind_at(ts, pos + at + 1) != TokenKind::Assign {
                    fail(expected_message(TokenKind::Assign, ts, pos + at + 1), at, errors)
                } else {
                    let r = parse_expression(ts, pos + at + 2, errors, Precedence::Lowest);
                    let end: nat = at + 2 + r.used;
                    let declared = kind_at(ts, pos + 2).to_type();
                    match r.result {
                        Err(e) => fail(binding_message(display_at(ts, pos), typed, e), end, r.errors),
                        Ok(value) => if typed && declared != expr_type(value) {
                            fail(mismatch_message(declared, expr_type(value)), end, r.errors)
                        } else {
                            done(
                                binding(is_let, name.value, value),
                                end + semicolon_after(ts, pos + end),
                                r.errors,
                            )
                        },
                    }
                }
            },
        }
    }
}

/// The `ret` statement whose keyword is at `pos`: the value, and a
/// semicolon if one follows.
#[verifier::opaque]
pub open spec fn parse_return(ts: Seq<TokenView>, pos: nat, errors: Seq<Seq<char>>) -> Parsed<
    StmtView,
>
    decreases remaining(ts, pos), 5nat,
{
    if kind_at(ts, pos) != TokenKind::Return {
        fail(expected_message(TokenKind::Return, ts, pos), 0, errors)
    } else {
        let r = parse_expression(ts, pos + 1, errors, Precedence::Lowest);
        match r.result {
            Err(e) => stop(e, 1 + r.used, r.errors),
            Ok(value) => done(
                StmtView::Return(Some(value)),
                1 + r.used + semicolon_after(ts, pos + 1 + r.used),
                r.errors,
            ),
        }
    }
}

/// The expression statement that starts at `pos`: an expression, and a
/// semicolon if one follows.
#[verifier::opaque]
pub open spec fn parse_expression_statement(
    ts: Seq<TokenView>,
    pos: nat,
    errors: Seq<Seq<char>>,
) -> Parsed<StmtView>
    decreases remaining(ts, pos), 5nat,
{
    let r = parse_expression(ts, pos, errors, Precedence::Lowest);
    match r.result {
        Err(e) => stop(e, r.used, r.errors),
        Ok(e) => done(
            StmtView::Expression { expression: Some(e), typ: Type::Unknown },
            r.used + semicolon_after(ts, pos + r.used),
            r.errors,
        ),
    }
}

/// The expression that starts at `pos` and takes in every operator that
/// binds tighter than `precedence`.
#[verifier::opaque]
pub open spec fn parse_expression(
    ts: Seq<TokenView>,
    pos: nat,
    errors: Seq<Seq<char>>,
    precedence: Precedence,
) -> Parsed<ExprView>
    decreases remaining(ts, pos), 4nat,
{
    let r = parse_prefix(ts, pos, errors);
    match r.result {
        Err(e) => r,
        Ok(left) => {
            let rest = parse_operators(ts, pos + r.used, r.errors, precedence, left);
            Parsed { result: rest.result, used: r.used + rest.used, errors: rest.errors }
        },
    }
}

/// The form with which the expression at `pos` starts: a literal, an
/// identifier, a prefix operator with its operand, a bracketed expression,
/// an array literal, a conditional, a loop or a function literal.
#[verifier::opaque]
pub open spec fn parse_prefix(ts: Seq<TokenView>, pos: nat, errors: Seq<Seq<char>>) -> Parsed<
    ExprView,
>
    decreases remaining(ts, pos), 3nat,
{
    match kind_at(ts, pos) {
        TokenKind::Ident => parse_identifier(ts, pos, errors),
        TokenKind::Number => parse_number_literal(ts, pos, errors),
        TokenKind::Minus | TokenKind::Bang => parse_prefix_expression(ts, pos, errors),
        TokenKind::True | TokenKind::False => parse_bool_literal(ts, pos, errors),
        TokenKind::String => parse_string_literal(ts, pos, errors),
        TokenKind::LParen => parse_grouped_expression(ts, pos, errors),
        TokenKind::LSqBracket => parse_array_literal(ts, pos, errors),
        TokenKind::If => parse_if_expression(ts, pos, errors),
        TokenKind::While => parse_while_expression(ts, pos, errors),
        TokenKind::Function => parse_function_literal(ts, pos, errors),
        _ => fail(prefix_message(ts, pos), 0, errors),
    }
}

/// The form that the token at `pos` introduces behind the operand `left`.
#[verifier::opaque]
pub open spec fn parse_infix(
    ts: Seq<TokenView>,
    pos: nat,
    errors: Seq<Seq<char>>,
    form: InfixForm,
    left: ExprView,
) -> Parsed<ExprView>
    decreases remaining(ts, pos), 3nat,
{
    match form {
        InfixForm::Binary => parse_infix_expression(ts, pos, errors, left),
        InfixForm::Call => parse_call_expression(ts, pos, errors, left),
        InfixForm::Index => parse_index_expression(ts, pos, errors, left),
    }
}

/// The operators behind the operand `left`, which ends at `pos`: as long as
/// the next token binds tighter than `precedence`, the form that it
/// introduces, with all that was parsed so far as its left operand.
#[verifier::opaque]
pub open spec fn parse_operators(
    ts: Seq<TokenView>,
    pos: nat,
    errors: Seq<Seq<char>>,
    precedence: Precedence,
    left: ExprView,
) -> Parsed<ExprView>
    decreases remaining(ts, pos), 2nat,
{
    let next = kind_at(ts, pos + 1);
    if kind_at(ts, pos) != TokenKind::Semicolon && precedence.rank() < precedence_of(next).rank() {
        match infix_form(next) {
            None => done(left, 0, errors),
            Some(form) => {
                let r = parse_infix(ts, pos + 1, errors, form, left);
                match r.result {
                    Err(e) => stop(e, 1 + r.used, r.errors),
                    Ok(e) => {
                        let rest = parse_operators(ts, pos + 1 + r.used, r.errors, precedence, e);
                        Parsed {
                            result: rest.result,
                            used: 1 + r.used + rest.used,
                            errors: rest.errors,
                        }
                    },
                }
            },
        }
    } else {
        done(left, 0, errors)
    }
}

/// The prefix operator at `pos` with its operand.
#[verifier::opaque]
pub open spec fn parse_prefix_expression(
    ts: Seq<TokenView>,
    pos: nat,
    errors: Seq<Seq<char>>,
) -> Parsed<ExprView>
    decreases remaining(ts, pos), 1nat,
{
    let kind = kind_at(ts, pos);
    if kind == TokenKind::EOF {
        fail(prefix_message(ts, pos), 0, errors)
    } else {
        let r = parse_expression(ts, pos + 1, errors, Precedence::Prefix);
        match r.result {
            Err(e) => stop(e, 1 + r.used, r.errors),
            Ok(right) => done(
                ExprView::Prefix {
                    operator: kind.literal(),
                    right: Some(Box::new(right)),
                    typ: Some(kind.to_type()),
                },
                1 + r.used,
                r.errors,
            ),
        }
    }
}

/// The binary operator at `pos` with its right operand; `left` is the left
/// one.  The right operand takes in what binds tighter than the operator.
#[verifier::opaque]
pub open spec fn parse_infix_expression(
    ts: Seq<TokenView>,
    pos: nat,
    errors: Seq<Seq<char>>,
    left: ExprView,
) -> Parsed<ExprView>
    decreases remaining(ts, pos), 1nat,
{
    let kind = kind_at(ts, pos);
    if kind == TokenKind::EOF {
        fail(prefix_message(ts, pos), 0, errors)
    } else {
        let r = parse_expression(ts, pos + 1, errors, precedence_of(kind));
        match r.result {
            Err(e) => stop(e, 1 + r.used, r.errors),
            Ok(right) => done(
                ExprView::Infix {
                    operator: kind.literal(),
                    left: Some(Box::new(left)),
                    right: Some(Box::new(right)),
                    typ: Some(kind.to_type()),
                },
                1 + r.used,
                r.errors,
            ),
        }
    }
}

/// The bracketed expression whose opening bracket is at `pos`.
#[verifier::opaque]
pub open spec fn parse_grouped_expression(
    ts: Seq<TokenView>,
    pos: nat,
    errors: Seq<Seq<char>>,
) -> Parsed<ExprView>
    decreases remaining(ts, pos), 1nat,
{
    if kind_at(ts, pos) == TokenKind::EOF {
        fail(prefix_message(ts, pos), 0, errors)
    } else {
        let r = parse_expression(ts, pos + 1, errors, Precedence::Lowest);
        let end: nat = 1 + r.used;
        if kind_at(ts, pos + end + 1) == TokenKind::RParen {
            Parsed { result: r.result, used: end + 1, errors: r.errors }
        } else {
            fail(expected_message(TokenKind::RParen, ts, pos + end + 1), end, r.errors)
        }
    }
}

/// The expressions between the opening bracket at `pos` and the bracket of
/// kind `closing`, with commas between them.
#[verifier::opaque]
pub open spec fn parse_expression_list(
    ts: Seq<TokenView>,
    pos: nat,
    errors: Seq<Seq<char>>,
    closing: TokenKind,
) -> Parsed<Seq<ExprView>>
    decreases remaining(ts, pos), 1nat,
{
    if kind_at(ts, pos) == TokenKind::EOF {
        fail(prefix_message(ts, pos), 0, errors)
    } else if kind_at(ts, pos + 1) == closing {
        done(Seq::empty(), 1, errors)
    } else {
        let r = parse_expression(ts, pos + 1, errors, Precedence::Lowest);
        match r.result {
            Err(e) => stop(e, 1 + r.used, r.errors),
            Ok(first) => {
                let rest = parse_more_expressions(
                    ts,
                    pos + 1 + r.used,
                    r.errors,
                    closing,
                    seq![first],
                );
                Parsed { result: rest.result, used: 1 + r.used + rest.used, errors: rest.errors }
            },
        }
    }
}

/// The expressions behind the one that ends at `pos`: as long as a comma
/// follows, another expression, and then the closing bracket.  `acc` holds
/// the expressions read so far.
#[verifier::opaque]
pub open spec fn parse_more_expressions(
    ts: Seq<TokenView>,
    pos: nat,
    errors: Seq<Seq<char>>,
    closing: TokenKind,
    acc: Seq<ExprView>,
) -> Parsed<Seq<ExprView>>
    decreases remaining(ts, pos), 0nat,
{
    if kind_at(ts, pos + 1) == TokenKind::Comma {
        let r = parse_expression(ts, pos + 2, errors, Precedence::Lowest);
        match r.result {
            Err(e) => stop(e, 2 + r.used, r.errors),
            Ok(e) => {
                let rest = parse_more_expressions(
                    ts,
                    pos + 2 + r.used,
                    r.errors,
                    closing,
                    acc.push(e),
                );
                Parsed { result: rest.result, used: 2 + r.used + rest.used, errors: rest.errors }
            },
        }
    } else if kind_at(ts, pos + 1) == closing {
        done(acc, 1, errors)
    } else {
        fail(expected_message(closing, ts, pos + 1), 0, errors)
    }
}

/// The array literal whose opening bracket is at `pos`.
#[verifier::opaque]
pub open spec fn parse_array_literal(ts: Seq<TokenView>, pos: nat, errors: Seq<Seq<char>>) -> Parsed<
    ExprView,
>
    decreases remaining(ts, pos), 2nat,
{
    let r = parse_expression_list(ts, pos, errors, TokenKind::RSqBracket);
    match r.result {
        Err(e) => stop(e, r.used, r.errors),
        Ok(items) => done(ExprView::Array(items), r.used, r.errors),
    }
}

/// The call whose opening bracket is at `pos`; `function` is what is called.
#[verifier::opaque]
pub open spec fn parse_call_expression(
    ts: Seq<TokenView>,
    pos: nat,
    errors: Seq<Seq<char>>,
    function: ExprView,
) -> Parsed<ExprView>
    decreases remaining(ts, pos), 2nat,
{
    let r = parse_expression_list(ts, pos, errors, TokenKind::RParen);
    match r.result {
        Err(e) => stop(e, r.used, r.errors),
        Ok(arguments) => done(
            ExprView::Call { function: Box::new(function), arguments },
            r.used,
            r.errors,
        ),
    }
}

/// The index whose opening bracket is at `pos`; `left` is what is indexed.
#[verifier::opaque]
pub open spec fn parse_index_expression(
    ts: Seq<TokenView>,
    pos: nat,
    errors: Seq<Seq<char>>,
    left: ExprView,
) -> Parsed<ExprView>
    decreases remaining(ts, pos), 1nat,
{
    if kind_at(ts, pos) == TokenKind::EOF {
        fail(prefix_message(ts, pos), 0, errors)
    } else {
        let r = parse_expression(ts, pos + 1, errors, Precedence::Lowest);
        match r.result {
            Err(e) => stop(e, 1 + r.used, r.errors),
            Ok(index) => if kind_at(ts, pos + 1 + r.used + 1) == TokenKind::RSqBracket {
                done(
                    ExprView::Index { left: Box::new(left), index: Box::new(index) },
                    1 + r.used + 1,
                    r.errors,
                )
            } else {
                fail(
                    expected_message(TokenKind::RSqBracket, ts, pos + 1 + r.used + 1),
                    1 + r.used,
                    r.errors,
                )
            },
        }
    }
}

/// What a block yields: its statements.  A block never fails as a whole: a
/// statement that does not parse leaves a diagnostic and is skipped.
pub struct ParsedBlock {
    pub statements: Seq<StmtView>,
    pub used: nat,
    pub errors: Seq<Seq<char>>,
}

/// The statements gathered once the outcome `r` of one more statement is
/// taken in: with the statement, if there is one.
pub open spec fn with_statement(acc: Seq<StmtView>, r: Parsed<StmtView>) -> Seq<StmtView> {
    match r.result {
        Ok(s) => acc.push(s),
        Err(_) => acc,
    }
}

/// The diagnostics gathered once the outcome `r` of one more statement is
/// taken in: with its diagnostic, if it failed with one.
pub open spec fn with_diagnostic(r: Parsed<StmtView>) -> Seq<Seq<char>> {
    match r.result {
        Err(ParseErrorView::Message(m)) => r.errors.push(m),
        _ => r.errors,
    }
}

/// The statements from `pos` up to the closing brace or the end of the
/// input, behind the statements `acc`.  After a statement, and after a
/// failure, the parser moves one token on.
#[verifier::opaque]
pub open spec fn parse_statements(
    ts: Seq<TokenView>,
    pos: nat,
    errors: Seq<Seq<char>>,
    acc: Seq<StmtView>,
) -> ParsedBlock
    decreases remaining(ts, pos), 7nat,
{
    let kind = kind_at(ts, pos);
    if kind == TokenKind::Rbrace || kind == TokenKind::EOF {
        ParsedBlock { statements: acc, used: 0, errors }
    } else {
        let r = parse_statement(ts, pos, errors);
        if kind_at(ts, pos + r.used) == TokenKind::EOF {
            ParsedBlock {
                statements: with_statement(acc, r),
                used: r.used,
                errors: with_diagnostic(r),
            }
        } else {
            let rest = parse_statements(
                ts,
                pos + r.used + 1,
                with_diagnostic(r),
                with_statement(acc, r),
            );
            ParsedBlock {
                statements: rest.statements,
                used: r.used + 1 + rest.used,
                errors: rest.errors,
            }
        }
    }
}

/// The block whose opening brace is at `pos`.  The parser ends on the
/// closing brace, or at the end of the input if the brace is missing.
#[verifier::opaque]
pub open spec fn parse_block_statement(
    ts: Seq<TokenView>,
    pos: nat,
    errors: Seq<Seq<char>>,
) -> ParsedBlock
    decreases remaining(ts, pos), 0nat,
{
    if kind_at(ts, pos) == TokenKind::EOF {
        ParsedBlock { statements: Seq::empty(), used: 0, errors }
    } else {
        let r = parse_statements(ts, pos + 1, errors, Seq::empty());
        ParsedBlock { statements: r.statements, used: 1 + r.used, errors: r.errors }
    }
}

/// What follows the first block of a conditional.
pub struct ElseView {
    pub alternative: Option<Seq<StmtView>>,
    pub el_if: Option<Box<ExprView>>,
}

/// The conditional with the given parts.
pub open spec fn conditional(
    condition: ExprView,
    consequence: Seq<StmtView>,
    tail: ElseView,
) -> ExprView {
    ExprView::If {
        condition: Box::new(condition),
        consequence: Some(consequence),
        alternative: tail.alternative,
        el_if: tail.el_if,
    }
}

/// The conditional whose `if` is at `pos`: the condition, a block, and
/// what follows the block.
#[verifier::opaque]
pub open spec fn parse_if_expression(ts: Seq<TokenView>, pos: nat, errors: Seq<Seq<char>>) -> Parsed<
    ExprView,
>
    decreases remaining(ts, pos), 1nat,
{
    if kind_at(ts, pos) == TokenKind::EOF {
        fail(prefix_message(ts, pos), 0, errors)
    } else {
        let c = parse_expression(ts, pos + 1, errors, Precedence::Lowest);
        let brace: nat = 1 + c.used + 1;
        match c.result {
            Err(e) => stop(e, 1 + c.used, c.errors),
            Ok(condition) => if kind_at(ts, pos + brace) != TokenKind::LBrace {
                fail(expected_message(TokenKind::LBrace, ts, pos + brace), 1 + c.used, c.errors)
            } else {
                let b = parse_block_statement(ts, pos + brace, c.errors);
                let rest = parse_else(ts, pos + brace + b.used, b.errors);
                match rest.result {
                    Err(e) => stop(e, brace + b.used + rest.used, rest.errors),
                    Ok(tail) => done(
                        conditional(condition, b.statements, tail),
                        brace + b.used + rest.used,
                        rest.errors,
                    ),
                }
            },
        }
    }
}

/// What follows the block of a conditional that ends at `pos`: nothing,
/// or `else` with a block, or `else` with another conditional.
#[verifier::opaque]
pub open spec fn parse_else(ts: Seq<TokenView>, pos: nat, errors: Seq<Seq<char>>) -> Parsed<
    ElseView,
>
    decreases remaining(ts, pos), 0nat,
{
    if kind_at(ts, pos + 1) != TokenKind::Else {
        done(ElseView { alternative: None, el_if: None }, 0, errors)
    } else if kind_at(ts, pos + 2) == TokenKind::LBrace {
        let a = parse_block_statement(ts, pos + 2, errors);
        done(ElseView { alternative: Some(a.statements), el_if: None }, 2 + a.used, a.errors)
    } else if kind_at(ts, pos + 2) == TokenKind::If {
        let other = parse_if_expression(ts, pos + 2, errors);
        match other.result {
            Err(e) => stop(e, 2 + other.used, other.errors),
            Ok(nested) => done(
                ElseView { alternative: None, el_if: Some(Box::new(nested)) },
                2 + other.used,
                other.errors,
            ),
        }
    } else {
        fail(expected_message(TokenKind::If, ts, pos + 2), 1, errors)
    }
}

/// The loop whose `while` is at `pos`: the condition and a block.
#[verifier::opaque]
pub open spec fn parse_while_expression(
    ts: Seq<TokenView>,
    pos: nat,
    errors: Seq<Seq<char>>,
) -> Parsed<ExprView>
    decreases remaining(ts, pos), 1nat,
{
    if kind_at(ts, pos) == TokenKind::EOF {
        fail(prefix_message(ts, pos), 0, errors)
    } else {
        let c = parse_expression(ts, pos + 1, errors, Precedence::Lowest);
        let brace: nat = 1 + c.used + 1;
        match c.result {
            Err(e) => stop(e, 1 + c.used, c.errors),
            Ok(condition) => if kind_at(ts, pos + brace) != TokenKind::LBrace {
                fail(expected_message(TokenKind::LBrace, ts, pos + brace), 1 + c.used, c.errors)
            } else {
                let b = parse_block_statement(ts, pos + brace, c.errors);
                done(
                    ExprView::While {
                        condition: Box::new(condition),
                        consequence: Some(b.statements),
                    },
                    brace + b.used,
                    b.errors,
                )
            },
        }
    }
}

/// The head of a function literal: what stands before its body.
pub struct HeaderView {
    pub name: IdentView,
    pub parameters: Seq<IdentView>,
    pub ret_typ: Type,
}

/// What follows the parameter list that ends at `pos`: a result type if one
/// is declared, and the opening brace of the body, on which the parser
/// ends.
pub open spec fn parse_result_type(ts: Seq<TokenView>, pos: nat, errors: Seq<Seq<char>>) -> Parsed<
    Type,
> {
    let typed = is_type_kind(kind_at(ts, pos + 1));
    let at: nat = if typed {
        1
    } else {
        0
    };
    if kind_at(ts, pos + at + 1) != TokenKind::LBrace {
        fail(expected_message(TokenKind::LBrace, ts, pos + at + 1), at, errors)
    } else {
        done(
            if typed {
                return_type(kind_at(ts, pos + 1))
            } else {
                Type::Unknown
            },
            at + 1,
            errors,
        )
    }
}

/// The head of the function literal whose `fn` is at `pos`: the name, the
/// parameters in brackets, and a result type if one is declared.  The
/// parser ends on the opening brace of the body.
pub open spec fn parse_function_header(
    ts: Seq<TokenView>,
    pos: nat,
    errors: Seq<Seq<char>>,
) -> Parsed<HeaderView> {
    if kind_at(ts, pos) == TokenKind::EOF {
        fail(prefix_message(ts, pos), 0, errors)
    } else {
        match create_identifier(ts, pos + 1, errors, false).result {
            Err(e) => stop(e, 1, errors),
            Ok(name) => if kind_at(ts, pos + 2) != TokenKind::LParen {
                fail(expected_message(TokenKind::LParen, ts, pos + 2), 1, errors)
            } else {
                let ps = parse_function_parameters(ts, pos + 2, errors);
                match ps.result {
                    Err(e) => stop(e, 2 + ps.used, ps.errors),
                    Ok(parameters) => {
                        let t = parse_result_type(ts, pos + 2 + ps.used, ps.errors);
                        match t.result {
                            Err(e) => stop(e, 2 + ps.used + t.used, t.errors),
                            Ok(ret_typ) => done(
                                HeaderView { name, parameters, ret_typ },
                                2 + ps.used + t.used,
                                t.errors,
                            ),
                        }
                    },
                }
            },
        }
    }
}

/// The function literal whose `fn` is at `pos`: the head and the body.
#[verifier::opaque]
pub open spec fn parse_function_literal(
    ts: Seq<TokenView>,
    pos: nat,
    errors: Seq<Seq<char>>,
) -> Parsed<ExprView>
    decreases remaining(ts, pos), 1nat,
{
    let h = parse_function_header(ts, pos, errors);
    match h.result {
        Err(e) => stop(e, h.used, h.errors),
        Ok(header) => if kind_at(ts, pos) == TokenKind::EOF || h.used == 0 {
            fail(prefix_message(ts, pos), 0, errors)
        } else {
            let b = parse_block_statement(ts, pos + h.used, h.errors);
            done(
                ExprView::Function {
                    name: header.name,
                    parameters: header.parameters,
                    body: Some(b.statements),
                    ret_typ: header.ret_typ,
                },
                h.used + b.used,
                b.errors,
            )
        },
    }
}

/// What parsing a whole program yields: its statements and its diagnostics.
pub struct ParsedProgram {
    pub statements: Seq<StmtView>,
    pub errors: Seq<Seq<char>>,
}

/// The program from `pos` on, behind the statements `acc`: statement after
/// statement up to the end of the input.  A statement that does not parse
/// leaves its diagnostic, and parsing resumes one token further on.
#[verifier::opaque]
pub open spec fn parse_program(
    ts: Seq<TokenView>,
    pos: nat,
    errors: Seq<Seq<char>>,
    acc: Seq<StmtView>,
) -> ParsedProgram
    decreases remaining(ts, pos),
{
    let r = parse_statement(ts, pos, errors);
    if r.result == Err::<StmtView, ParseErrorView>(ParseErrorView::Eof) {
        ParsedProgram { statements: acc, errors: r.errors }
    } else if pos + r.used < ts.len() {
        parse_program(ts, pos + r.used + 1, with_diagnostic(r), with_statement(acc, r))
    } else {
        ParsedProgram { statements: with_statement(acc, r), errors: with_diagnostic(r) }
    }
}

} // verus!
