//! The way back: the tokens of a tree parse to the tree.
//!
//! For every tree that the parser can give, parsing the tokens of the tree
//! gives the tree again, without a diagnostic.  The laws here prove this
//! form by form; [`lemma_program_round_trip`] states it for whole programs.

use crate::ast::model::{ExprView, IdentView, StmtView};
use crate::ast::types::Type;
use crate::lexer::token::{TokenKind, TokenView};
use crate::parser::grammar;
use crate::parser::grammar::{
    done, is_type_kind, kind_at, text_at, ElseView, InfixForm, Parsed, ParsedBlock, ParsedProgram,
};
use crate::parser::precedence::{precedence_of, Precedence};
use crate::parser::unparse::{
    binary_kind, block_tokens, expr_tokens, is_binary_kind, is_binary_operator,
    is_prefix_operator, list_tokens, more_param_tokens, more_tokens, param_tokens,
    params_tokens, plain, prefix_kind, ret_tokens, separator_tokens, stand_at, stmt_tokens, stmts_tokens,
    type_kind, type_tokens, wf_expr, wf_exprs, wf_param, wf_stmt, wf_stmts, word, Tok,
};
use crate::text::lemma_parse_int_text;
use vstd::prelude::*;

verus! {

/// The outcome `p`, reached `k` tokens further on.
pub open spec fn shifted<T>(p: Parsed<T>, k: nat) -> Parsed<T> {
    Parsed { result: p.result, used: p.used + k, errors: p.errors }
}

/// Whether a token of kind `k` may stand behind an expression: it is no
/// type keyword and not `else`.
pub open spec fn follower_ok(k: TokenKind) -> bool {
    !is_type_kind(k) && k != TokenKind::Else
}

/// Whether a token of kind `k` ends the operators behind an operand.
pub open spec fn stops(k: TokenKind) -> bool {
    precedence_of(k) == Precedence::Lowest
}

/// Whether an expression can start with a token of kind `k`.
pub open spec fn opens(k: TokenKind) -> bool {
    k == TokenKind::Ident || k == TokenKind::Number || k == TokenKind::True || k
        == TokenKind::False || k == TokenKind::String || k == TokenKind::LSqBracket || k
        == TokenKind::LParen || k == TokenKind::If || k == TokenKind::While || k
        == TokenKind::Function
}

/// Whether an expression can end with a token of kind `k`.
pub open spec fn closes(k: TokenKind) -> bool {
    k == TokenKind::Ident || k == TokenKind::Number || k == TokenKind::True || k
        == TokenKind::False || k == TokenKind::String || k == TokenKind::RSqBracket || k
        == TokenKind::RParen || k == TokenKind::Rbrace
}

/// Tokens that stand at a position stand there part by part.
pub proof fn lemma_stand_add(ts: Seq<TokenView>, pos: nat, a: Seq<Tok>, b: Seq<Tok>)
    requires
        stand_at(ts, pos, a + b),
    ensures
        stand_at(ts, pos, a),
        stand_at(ts, (pos + a.len()) as nat, b),
{
    assert forall|i: int| 0 <= i < a.len() implies kind_at(ts, (pos + i) as nat) == (
    #[trigger] a[i]).kind && text_at(ts, (pos + i) as nat) == a[i].text by {
        assert((a + b)[i] == a[i]);
    }
    assert forall|i: int| 0 <= i < b.len() implies kind_at(ts, (pos + a.len() + i) as nat) == (
    #[trigger] b[i]).kind && text_at(ts, (pos + a.len() + i) as nat) == b[i].text by {
        assert((a + b)[a.len() + i] == b[i]);
    }
}

/// A single token that stands at a position is the token at the position.
pub proof fn lemma_stand_one(ts: Seq<TokenView>, pos: nat, toks: Seq<Tok>)
    requires
        stand_at(ts, pos, toks),
        toks.len() >= 1,
    ensures
        kind_at(ts, pos) == toks[0].kind,
        text_at(ts, pos) == toks[0].text,
{
    assert(kind_at(ts, (pos + 0) as nat) == toks[0].kind);
}

/// Behind an operand that a stopping token follows, no operator is taken.
#[verifier::spinoff_prover]
pub proof fn lemma_operators_stop(
    ts: Seq<TokenView>,
    pos: nat,
    errs: Seq<Seq<char>>,
    prec: Precedence,
    left: ExprView,
)
    requires
        stops(kind_at(ts, pos + 1)),
    ensures
        grammar::parse_operators(ts, pos, errs, prec, left) == done(left, 0, errs),
{
    reveal(grammar::parse_operators);
}

/// The spelling of a prefix operator is that of its kind.
pub proof fn lemma_prefix_kind(operator: Seq<char>)
    requires
        is_prefix_operator(operator),
    ensures
        prefix_kind(operator).literal() == operator,
        prefix_kind(operator) == TokenKind::Minus || prefix_kind(operator) == TokenKind::Bang,
{
}

/// The spelling of a binary operator is that of its kind.
pub proof fn lemma_binary_kind(operator: Seq<char>)
    requires
        is_binary_operator(operator),
    ensures
        binary_kind(operator).literal() == operator,
        is_binary_kind(binary_kind(operator)),
{
}

/// The keyword of a type that has one names the type.
pub proof fn lemma_type_kind(typ: Type)
    requires
        typ.is_declarable(),
    ensures
        is_type_kind(type_kind(typ)),
        type_kind(typ).to_type() == typ,
{
}

/// The tokens of a block start and end with a brace.
pub proof fn lemma_block_ends(stmts: Seq<StmtView>)
    ensures
        block_tokens(stmts).len() >= 2,
        block_tokens(stmts)[0].kind == TokenKind::LBrace,
        block_tokens(stmts).last().kind == TokenKind::Rbrace,
{
}

/// The tokens of an expression start with a token that opens one.
pub proof fn lemma_first(e: ExprView)
    requires
        wf_expr(e),
    ensures
        expr_tokens(e).len() >= 1,
        opens(expr_tokens(e)[0].kind),
    decreases e,
{
    match e {
        ExprView::Call { function, arguments } => {
            lemma_first(*function);
            let head = expr_tokens(*function);
            assert(expr_tokens(e)[0] == head[0]);
        },
        ExprView::Prefix { right, .. } => {
            assert(right is Some);
        },
        ExprView::Infix { left, right, .. } => {
            assert(left is Some && right is Some);
        },
        _ => {},
    }
}

/// The tokens of an expression end with a token that closes one.
pub proof fn lemma_last(e: ExprView)
    requires
        wf_expr(e),
    ensures
        expr_tokens(e).len() >= 1,
        closes(expr_tokens(e).last().kind),
    decreases e,
{
    match e {
        ExprView::If { condition, consequence, alternative, el_if } => {
            match el_if {
                Some(other) => {
                    lemma_last(*other);
                    assert(expr_tokens(e).last() == expr_tokens(*other).last());
                },
                None => {
                    match alternative {
                        Some(other) => {
                            lemma_block_ends(other);
                        },
                        None => {
                            lemma_block_ends(consequence->Some_0);
                        },
                    }
                },
            }
        },
        ExprView::While { consequence, .. } => {
            lemma_block_ends(consequence->Some_0);
        },
        ExprView::Function { body, .. } => {
            lemma_block_ends(body->Some_0);
        },
        ExprView::Prefix { right, .. } => {
            assert(right is Some);
        },
        ExprView::Infix { left, right, .. } => {
            assert(left is Some && right is Some);
        },
        _ => {},
    }
}


/// An expression parses to itself, up to the operators that follow it:
/// parsing from the first token of the expression is parsing the
/// operators behind its last token, with the expression as the operand.
#[verifier::spinoff_prover]
pub proof fn lemma_expression(
    ts: Seq<TokenView>,
    pos: nat,
    errs: Seq<Seq<char>>,
    prec: Precedence,
    e: ExprView,
)
    requires
        wf_expr(e),
        stand_at(ts, pos, expr_tokens(e)),
        prec.rank() <= 7,
        follower_ok(kind_at(ts, pos + expr_tokens(e).len())),
    ensures
        expr_tokens(e).len() >= 1,
        grammar::parse_expression(ts, pos, errs, prec) == shifted(
            grammar::parse_operators(
                ts,
                (pos + expr_tokens(e).len() - 1) as nat,
                errs,
                prec,
                e,
            ),
            (expr_tokens(e).len() - 1) as nat,
        ),
    decreases e, 5nat,
{
    lemma_first(e);
    if e is Call {
        lemma_call(ts, pos, errs, prec, e);
    } else {
        lemma_primary(ts, pos, errs, e);
        reveal(grammar::parse_expression);
    }
}

/// An expression that a stopping token follows parses to itself.
#[verifier::spinoff_prover]
pub proof fn lemma_expression_done(
    ts: Seq<TokenView>,
    pos: nat,
    errs: Seq<Seq<char>>,
    prec: Precedence,
    e: ExprView,
)
    requires
        wf_expr(e),
        stand_at(ts, pos, expr_tokens(e)),
        prec.rank() <= 7,
        follower_ok(kind_at(ts, pos + expr_tokens(e).len())),
        stops(kind_at(ts, pos + expr_tokens(e).len())),
    ensures
        expr_tokens(e).len() >= 1,
        grammar::parse_expression(ts, pos, errs, prec) == done(
            e,
            (expr_tokens(e).len() - 1) as nat,
            errs,
        ),
    decreases e, 6nat,
{
    lemma_expression(ts, pos, errs, prec, e);
    lemma_operators_stop(ts, (pos + expr_tokens(e).len() - 1) as nat, errs, prec, e);
}

/// An expression that is no call parses as one prefix form.
#[verifier::spinoff_prover]
pub proof fn lemma_primary(ts: Seq<TokenView>, pos: nat, errs: Seq<Seq<char>>, e: ExprView)
    requires
        wf_expr(e),
        !(e is Call),
        stand_at(ts, pos, expr_tokens(e)),
        follower_ok(kind_at(ts, pos + expr_tokens(e).len())),
    ensures
        expr_tokens(e).len() >= 1,
        grammar::parse_prefix(ts, pos, errs) == done(e, (expr_tokens(e).len() - 1) as nat, errs),
    decreases e, 4nat,
{
    lemma_first(e);
    lemma_stand_one(ts, pos, expr_tokens(e));
    reveal(grammar::parse_prefix);
    match e {
        ExprView::Identifier(i) => {},
        ExprView::Int(v) => {
            lemma_parse_int_text(v);
        },
        ExprView::Bool(_) => {},
        ExprView::Str(_) => {},
        ExprView::Array(_) => {
            lemma_array_form(ts, pos, errs, e);
        },
        ExprView::Prefix { .. } => {
            lemma_prefix_form(ts, pos, errs, e);
        },
        ExprView::Infix { .. } => {
            lemma_infix_form(ts, pos, errs, e);
        },
        ExprView::If { .. } => {
            lemma_if_form(ts, pos, errs, e);
        },
        ExprView::While { .. } => {
            lemma_while_form(ts, pos, errs, e);
        },
        ExprView::Function { .. } => {
            lemma_function_form(ts, pos, errs, e);
        },
        ExprView::Call { .. } => {},
        ExprView::Index { .. } => {
            lemma_index_form(ts, pos, errs, e);
        },
    }
}

/// A call parses to itself, up to the operators that follow it.
#[verifier::spinoff_prover]
pub proof fn lemma_call(
    ts: Seq<TokenView>,
    pos: nat,
    errs: Seq<Seq<char>>,
    prec: Precedence,
    e: ExprView,
)
    requires
        e is Call,
        wf_expr(e),
        stand_at(ts, pos, expr_tokens(e)),
        prec.rank() <= 7,
    ensures
        grammar::parse_expression(ts, pos, errs, prec) == shifted(
            grammar::parse_operators(
                ts,
                (pos + expr_tokens(e).len() - 1) as nat,
                errs,
                prec,
                e,
            ),
            (expr_tokens(e).len() - 1) as nat,
        ),
    decreases e, 3nat,
{
    reveal(grammar::parse_call_expression);
    reveal(grammar::parse_infix);
    reveal(grammar::parse_operators);
    let function = *e->Call_function;
    let arguments = e->Call_arguments;
    let head = expr_tokens(function);
    let list = list_tokens(arguments);
    let open = plain(TokenKind::LParen);
    let close = plain(TokenKind::RParen);
    assert(expr_tokens(e) == head + open + list + close);
    lemma_first(function);
    lemma_last(function);
    let nf = head.len();
    // The parts of the call, each at its place.
    lemma_stand_add(ts, pos, head + open + list, close);
    lemma_stand_add(ts, pos, head + open, list);
    lemma_stand_add(ts, pos, head, open);
    lemma_stand_one(ts, (pos + nf) as nat, open);
    assert(kind_at(ts, (pos + nf) as nat) == TokenKind::LParen);
    lemma_expression(ts, pos, errs, prec, function);
    let at = (pos + nf - 1) as nat;
    assert(kind_at(ts, at) == head[nf - 1].kind);
    assert(head[nf - 1] == head.last());
    // The list of the arguments, with its closing bracket.
    assert(stand_at(ts, (pos + nf + 1) as nat, list + close)) by {
        assert forall|i: int| 0 <= i < (list + close).len() implies kind_at(
            ts,
            (pos + nf + 1 + i) as nat,
        ) == (#[trigger] (list + close)[i]).kind && text_at(ts, (pos + nf + 1 + i) as nat) == (
        list + close)[i].text by {
            if i < list.len() {
                assert((list + close)[i] == list[i]);
                assert(kind_at(ts, (pos + (nf + 1) + i) as nat) == list[i].kind);
            } else {
                assert((list + close)[i] == close[i - list.len()]);
                assert(kind_at(ts, (pos + (nf + 1 + list.len()) + (i - list.len())) as nat)
                    == close[i - list.len()].kind);
            }
        }
    }
    lemma_list(ts, (pos + nf) as nat, errs, TokenKind::RParen, arguments);
    let made = ExprView::Call { function: Box::new(function), arguments };
    assert(made == e);
    let nl = list.len();
    assert(grammar::parse_call_expression(ts, (pos + nf) as nat, errs, function) == done(
        e,
        nl + 1,
        errs,
    ));
    assert(grammar::parse_infix(ts, (pos + nf) as nat, errs, InfixForm::Call, function) == done(
        e,
        nl + 1,
        errs,
    ));
    assert(expr_tokens(e).len() == nf + nl + 2);
    assert(grammar::parse_operators(ts, at, errs, prec, function) == shifted(
        grammar::parse_operators(ts, (pos + nf + nl + 1) as nat, errs, prec, e),
        nl + 2,
    )) by {
        assert(kind_at(ts, at) != TokenKind::Semicolon);
        assert(prec.rank() < precedence_of(TokenKind::LParen).rank());
        assert(kind_at(ts, at + 1) == TokenKind::LParen);
    }
}

/// A list of expressions between brackets parses to the expressions.
#[verifier::spinoff_prover]
pub proof fn lemma_list(
    ts: Seq<TokenView>,
    pos: nat,
    errs: Seq<Seq<char>>,
    closing: TokenKind,
    items: Seq<ExprView>,
)
    requires
        wf_exprs(items),
        closing == TokenKind::RParen || closing == TokenKind::RSqBracket,
        kind_at(ts, pos) != TokenKind::EOF,
        stand_at(ts, pos + 1, list_tokens(items) + plain(closing)),
    ensures
        grammar::parse_expression_list(ts, pos, errs, closing) == done(
            items,
            list_tokens(items).len() + 1,
            errs,
        ),
    decreases items, items.len() + 2,
{
    reveal(grammar::parse_expression_list);
    let list = list_tokens(items);
    let close = plain(closing);
    lemma_stand_add(ts, pos + 1, list, close);
    if items.len() == 0 {
        lemma_stand_one(ts, pos + 1, close);
        assert(items =~= Seq::<ExprView>::empty());
    } else {
        let first = items[0];
        let head = expr_tokens(first);
        let more = more_tokens(items, 1);
        assert(list == head + more);
        lemma_first(first);
        lemma_stand_add(ts, pos + 1, head, more);
        lemma_stand_one(ts, pos + 1, head);
        let n = head.len();
        // What follows the first expression: a comma or the bracket.
        lemma_more_starts(items, 1, closing);
        lemma_stand_add(ts, (pos + 1 + n) as nat, more, close);
        assert(stand_at(ts, (pos + 1 + n) as nat, more + close)) by {
            assert forall|i: int| 0 <= i < (more + close).len() implies kind_at(
                ts,
                (pos + 1 + n + i) as nat,
            ) == (#[trigger] (more + close)[i]).kind && text_at(ts, (pos + 1 + n + i) as nat)
                == (more + close)[i].text by {
                if i < more.len() {
                    assert((more + close)[i] == more[i]);
                    assert((list + close)[n + i] == list[n + i]);
                    assert(list[n + i] == more[i]);
                    assert(kind_at(ts, (pos + 1 + (n + i)) as nat) == (list + close)[n + i].kind);
                } else {
                    assert((more + close)[i] == close[i - more.len()]);
                    assert((list + close)[n + i] == close[n + i - list.len()]);
                    assert(kind_at(ts, (pos + 1 + (n + i)) as nat) == (list + close)[n + i].kind);
                }
            }
        }
        lemma_stand_one(ts, (pos + 1 + n) as nat, more + close);
        lemma_expression_done(ts, pos + 1, errs, Precedence::Lowest, first);
        assert(seq![first] =~= items.take(1));
        lemma_more(ts, (pos + n) as nat, errs, closing, items, 1);
    }
}

/// The tokens behind an expression of a list start with a comma or with
/// the closing bracket.
pub proof fn lemma_more_starts(items: Seq<ExprView>, from: nat, closing: TokenKind)
    ensures
        (more_tokens(items, from) + plain(closing)).len() >= 1,
        (more_tokens(items, from) + plain(closing))[0].kind == (if from < items.len() {
            TokenKind::Comma
        } else {
            closing
        }),
{
    if from < items.len() {
        let more = more_tokens(items, from);
        assert(more == plain(TokenKind::Comma) + expr_tokens(items[from as int]) + more_tokens(
            items,
            from + 1,
        ));
        assert(more[0] == plain(TokenKind::Comma)[0]);
        assert((more + plain(closing))[0] == more[0]);
    }
}

/// The expressions behind the first of a list parse to themselves.
#[verifier::spinoff_prover]
pub proof fn lemma_more(
    ts: Seq<TokenView>,
    pos: nat,
    errs: Seq<Seq<char>>,
    closing: TokenKind,
    items: Seq<ExprView>,
    from: nat,
)
    requires
        wf_exprs(items),
        closing == TokenKind::RParen || closing == TokenKind::RSqBracket,
        1 <= from <= items.len(),
        stand_at(ts, pos + 1, more_tokens(items, from) + plain(closing)),
    ensures
        grammar::parse_more_expressions(ts, pos, errs, closing, items.take(from as int)) == done(
            items,
            more_tokens(items, from).len() + 1,
            errs,
        ),
    decreases items, items.len() - from,
{
    reveal(grammar::parse_more_expressions);
    let more = more_tokens(items, from);
    let close = plain(closing);
    lemma_more_starts(items, from, closing);
    lemma_stand_one(ts, pos + 1, more + close);
    if from == items.len() {
        assert(items.take(from as int) =~= items);
    } else {
        let item = items[from as int];
        let head = expr_tokens(item);
        let rest = more_tokens(items, from + 1);
        let comma = plain(TokenKind::Comma);
        assert(more == comma + head + rest);
        lemma_first(item);
        let n = head.len();
        lemma_stand_add(ts, pos + 1, more, close);
        lemma_stand_add(ts, pos + 1, comma + head, rest);
        lemma_stand_add(ts, pos + 1, comma, head);
        assert(stand_at(ts, (pos + 2 + n) as nat, rest + close)) by {
            assert forall|i: int| 0 <= i < (rest + close).len() implies kind_at(
                ts,
                (pos + 2 + n + i) as nat,
            ) == (#[trigger] (rest + close)[i]).kind && text_at(ts, (pos + 2 + n + i) as nat)
                == (rest + close)[i].text by {
                let j = 1 + n + i;
                assert(kind_at(ts, (pos + 1 + j) as nat) == (more + close)[j].kind);
                assert(text_at(ts, (pos + 1 + j) as nat) == (more + close)[j].text);
                if i < rest.len() {
                    assert((rest + close)[i] == rest[i]);
                    assert((more + close)[j] == more[j]);
                    assert(more[j] == rest[i]);
                } else {
                    assert((rest + close)[i] == close[i - rest.len()]);
                    assert((more + close)[j] == close[j - more.len()]);
                }
            }
        }
        lemma_more_starts(items, from + 1, closing);
        lemma_stand_one(ts, (pos + 2 + n) as nat, rest + close);
        lemma_expression_done(ts, pos + 2, errs, Precedence::Lowest, item);
        assert(items.take(from as int).push(item) =~= items.take(from + 1 as int));
        lemma_more(ts, (pos + 1 + n) as nat, errs, closing, items, from + 1);
    }
}

/// An array literal parses to itself.
#[verifier::spinoff_prover]
pub proof fn lemma_array_form(ts: Seq<TokenView>, pos: nat, errs: Seq<Seq<char>>, e: ExprView)
    requires
        e is Array,
        wf_expr(e),
        stand_at(ts, pos, expr_tokens(e)),
    ensures
        grammar::parse_array_literal(ts, pos, errs) == done(
            e,
            (expr_tokens(e).len() - 1) as nat,
            errs,
        ),
    decreases e, 3nat,
{
    let items = e->Array_0;
    let open = plain(TokenKind::LSqBracket);
    let list = list_tokens(items);
    let close = plain(TokenKind::RSqBracket);
    assert(expr_tokens(e) == open + list + close);
    lemma_stand_one(ts, pos, expr_tokens(e));
    assert(stand_at(ts, pos + 1, list + close)) by {
        assert forall|i: int| 0 <= i < (list + close).len() implies kind_at(
            ts,
            (pos + 1 + i) as nat,
        ) == (#[trigger] (list + close)[i]).kind && text_at(ts, (pos + 1 + i) as nat) == (list
            + close)[i].text by {
            assert(kind_at(ts, (pos + (1 + i)) as nat) == expr_tokens(e)[1 + i].kind);
            assert(text_at(ts, (pos + (1 + i)) as nat) == expr_tokens(e)[1 + i].text);
            if i < list.len() {
                assert((list + close)[i] == list[i]);
            } else {
                assert((list + close)[i] == close[i - list.len()]);
            }
        }
    }
    lemma_list(ts, pos, errs, TokenKind::RSqBracket, items);
    reveal(grammar::parse_array_literal);
}

/// A prefix operator with its operand, in brackets, parses to itself.
#[verifier::spinoff_prover]
pub proof fn lemma_prefix_form(ts: Seq<TokenView>, pos: nat, errs: Seq<Seq<char>>, e: ExprView)
    requires
        e is Prefix,
        wf_expr(e),
        stand_at(ts, pos, expr_tokens(e)),
    ensures
        grammar::parse_grouped_expression(ts, pos, errs) == done(
            e,
            (expr_tokens(e).len() - 1) as nat,
            errs,
        ),
    decreases e, 3nat,
{
    reveal(grammar::parse_prefix_expression);
    reveal(grammar::parse_prefix);
    reveal(grammar::parse_expression);
    reveal(grammar::parse_grouped_expression);
    let operator = e->Prefix_operator;
    let right = *(e->Prefix_right->Some_0);
    let kind = prefix_kind(operator);
    lemma_prefix_kind(operator);
    let open = plain(TokenKind::LParen);
    let op = plain(kind);
    let operand = expr_tokens(right);
    let close = plain(TokenKind::RParen);
    assert(expr_tokens(e) == open + op + operand + close);
    lemma_first(right);
    let n = operand.len();
    lemma_stand_add(ts, pos, open + op + operand, close);
    lemma_stand_add(ts, pos, open + op, operand);
    lemma_stand_add(ts, pos, open, op);
    lemma_stand_one(ts, pos, open);
    lemma_stand_one(ts, pos + 1, op);
    lemma_stand_one(ts, (pos + 2 + n) as nat, close);
    lemma_expression_done(ts, pos + 2, errs, Precedence::Prefix, right);
    assert(grammar::parse_expression(ts, pos + 2, errs, Precedence::Prefix) == done(
        right,
        (n - 1) as nat,
        errs,
    ));
    let made = ExprView::Prefix {
        operator: kind.literal(),
        right: Some(Box::new(right)),
        typ: Some(kind.to_type()),
    };
    assert(made == e);
    assert(grammar::parse_prefix_expression(ts, pos + 1, errs) == done(e, n, errs));
    assert(grammar::parse_prefix(ts, pos + 1, errs) == done(e, n, errs));
    lemma_operators_stop(ts, (pos + 1 + n) as nat, errs, Precedence::Lowest, e);
    assert(grammar::parse_expression(ts, pos + 1, errs, Precedence::Lowest) == done(e, n, errs));
    assert(expr_tokens(e).len() == n + 3);
    reveal(grammar::parse_grouped_expression);
}

/// A binary operator with its operands, in brackets, parses to itself.
#[verifier::spinoff_prover]
pub proof fn lemma_infix_form(ts: Seq<TokenView>, pos: nat, errs: Seq<Seq<char>>, e: ExprView)
    requires
        e is Infix,
        wf_expr(e),
        stand_at(ts, pos, expr_tokens(e)),
    ensures
        grammar::parse_grouped_expression(ts, pos, errs) == done(
            e,
            (expr_tokens(e).len() - 1) as nat,
            errs,
        ),
    decreases e, 3nat,
{
    reveal(grammar::parse_infix_expression);
    reveal(grammar::parse_infix);
    reveal(grammar::parse_operators);
    reveal(grammar::parse_expression);
    reveal(grammar::parse_grouped_expression);
    let operator = e->Infix_operator;
    let left = *(e->Infix_left->Some_0);
    let right = *(e->Infix_right->Some_0);
    let kind = binary_kind(operator);
    lemma_binary_kind(operator);
    let open = plain(TokenKind::LParen);
    let l = expr_tokens(left);
    let op = plain(kind);
    let r = expr_tokens(right);
    let close = plain(TokenKind::RParen);
    assert(expr_tokens(e) == open + l + op + r + close);
    lemma_first(left);
    lemma_last(left);
    lemma_first(right);
    let nl = l.len();
    let nr = r.len();
    lemma_stand_add(ts, pos, open + l + op + r, close);
    lemma_stand_add(ts, pos, open + l + op, r);
    lemma_stand_add(ts, pos, open + l, op);
    lemma_stand_add(ts, pos, open, l);
    lemma_stand_one(ts, pos, open);
    lemma_stand_one(ts, (pos + 1 + nl) as nat, op);
    lemma_stand_one(ts, (pos + 2 + nl + nr) as nat, close);
    // The left operand, up to the operator.
    lemma_expression(ts, pos + 1, errs, Precedence::Lowest, left);
    assert(kind_at(ts, (pos + nl) as nat) == l[nl - 1].kind) by {
        assert(kind_at(ts, (pos + 1 + (nl - 1)) as nat) == l[nl - 1].kind);
    }
    assert(l[nl - 1] == l.last());
    // The right operand, up to the closing bracket.
    lemma_expression_done(ts, (pos + 2 + nl) as nat, errs, precedence_of(kind), right);
    let made = ExprView::Infix {
        operator: kind.literal(),
        left: Some(Box::new(left)),
        right: Some(Box::new(right)),
        typ: Some(kind.to_type()),
    };
    assert(made == e);
    assert(grammar::parse_infix_expression(ts, (pos + 1 + nl) as nat, errs, left) == done(
        e,
        nr,
        errs,
    ));
    assert(grammar::parse_infix(ts, (pos + 1 + nl) as nat, errs, InfixForm::Binary, left)
        == done(e, nr, errs));
    lemma_operators_stop(ts, (pos + 1 + nl + nr) as nat, errs, Precedence::Lowest, e);
    assert(grammar::parse_operators(ts, (pos + nl) as nat, errs, Precedence::Lowest, left)
        == done(e, (1 + nr) as nat, errs)) by {
        assert(grammar::infix_form(kind) == Some(InfixForm::Binary));
        assert(kind_at(ts, (pos + nl) as nat) != TokenKind::Semicolon);
        assert(Precedence::Lowest.rank() < precedence_of(kind).rank());
    }
    assert(grammar::parse_expression(ts, pos + 1, errs, Precedence::Lowest) == done(
        e,
        (nl + nr) as nat,
        errs,
    ));
    assert(expr_tokens(e).len() == nl + nr + 3);
    reveal(grammar::parse_grouped_expression);
}

/// An index expression, in brackets, parses to itself.
#[verifier::spinoff_prover]
pub proof fn lemma_index_form(ts: Seq<TokenView>, pos: nat, errs: Seq<Seq<char>>, e: ExprView)
    requires
        e is Index,
        wf_expr(e),
        stand_at(ts, pos, expr_tokens(e)),
    ensures
        grammar::parse_grouped_expression(ts, pos, errs) == done(
            e,
            (expr_tokens(e).len() - 1) as nat,
            errs,
        ),
    decreases e, 3nat,
{
    reveal(grammar::parse_index_expression);
    reveal(grammar::parse_infix);
    reveal(grammar::parse_operators);
    reveal(grammar::parse_expression);
    reveal(grammar::parse_grouped_expression);
    let left = *(e->Index_left);
    let index = *(e->Index_index);
    let open = plain(TokenKind::LParen);
    let l = expr_tokens(left);
    let sq = plain(TokenKind::LSqBracket);
    let x = expr_tokens(index);
    let sq_close = plain(TokenKind::RSqBracket);
    let close = plain(TokenKind::RParen);
    assert(expr_tokens(e) == open + l + sq + x + sq_close + close);
    lemma_first(left);
    lemma_last(left);
    lemma_first(index);
    let nl = l.len();
    let nx = x.len();
    lemma_stand_add(ts, pos, open + l + sq + x + sq_close, close);
    lemma_stand_add(ts, pos, open + l + sq + x, sq_close);
    lemma_stand_add(ts, pos, open + l + sq, x);
    lemma_stand_add(ts, pos, open + l, sq);
    lemma_stand_add(ts, pos, open, l);
    lemma_stand_one(ts, pos, open);
    lemma_stand_one(ts, (pos + 1 + nl) as nat, sq);
    lemma_stand_one(ts, (pos + 2 + nl + nx) as nat, sq_close);
    lemma_stand_one(ts, (pos + 3 + nl + nx) as nat, close);
    lemma_expression(ts, pos + 1, errs, Precedence::Lowest, left);
    assert(kind_at(ts, (pos + nl) as nat) == l[nl - 1].kind) by {
        assert(kind_at(ts, (pos + 1 + (nl - 1)) as nat) == l[nl - 1].kind);
    }
    assert(l[nl - 1] == l.last());
    lemma_expression_done(ts, (pos + 2 + nl) as nat, errs, Precedence::Lowest, index);
    let made = ExprView::Index { left: Box::new(left), index: Box::new(index) };
    assert(made == e);
    assert(grammar::parse_index_expression(ts, (pos + 1 + nl) as nat, errs, left) == done(
        e,
        (nx + 1) as nat,
        errs,
    ));
    assert(grammar::parse_infix(ts, (pos + 1 + nl) as nat, errs, InfixForm::Index, left) == done(
        e,
        (nx + 1) as nat,
        errs,
    ));
    lemma_operators_stop(ts, (pos + 2 + nl + nx) as nat, errs, Precedence::Lowest, e);
    assert(grammar::parse_operators(ts, (pos + nl) as nat, errs, Precedence::Lowest, left)
        == done(e, (2 + nx) as nat, errs)) by {
        assert(kind_at(ts, (pos + nl) as nat) != TokenKind::Semicolon);
    }
    assert(grammar::parse_expression(ts, pos + 1, errs, Precedence::Lowest) == done(
        e,
        (nl + nx + 1) as nat,
        errs,
    ));
    assert(expr_tokens(e).len() == nl + nx + 4);
    reveal(grammar::parse_grouped_expression);
}


/// What follows the first block of a conditional.
pub open spec fn else_tokens(e: ExprView) -> Seq<Tok> {
    match e->If_el_if {
        Some(other) => plain(TokenKind::Else) + expr_tokens(*other),
        None => match e->If_alternative {
            Some(other) => plain(TokenKind::Else) + block_tokens(other),
            None => Seq::empty(),
        },
    }
}

/// What follows the first block of a conditional parses to itself.
#[verifier::spinoff_prover]
pub proof fn lemma_else(ts: Seq<TokenView>, pos: nat, errs: Seq<Seq<char>>, e: ExprView)
    requires
        e is If,
        wf_expr(e),
        stand_at(ts, pos + 1, else_tokens(e)),
        follower_ok(kind_at(ts, pos + 1 + else_tokens(e).len())),
    ensures
        grammar::parse_else(ts, pos, errs) == done(
            ElseView { alternative: e->If_alternative, el_if: e->If_el_if },
            else_tokens(e).len(),
            errs,
        ),
    decreases e, 2nat,
{
    let alternative = e->If_alternative;
    let el_if = e->If_el_if;
    match el_if {
        Some(other) => {
            let o = expr_tokens(*other);
            let el = plain(TokenKind::Else);
            lemma_first(*other);
            lemma_stand_add(ts, pos + 1, el, o);
            lemma_stand_one(ts, pos + 1, el);
            lemma_stand_one(ts, pos + 2, o);
            assert(o[0].kind == TokenKind::If);
            lemma_if_form(ts, pos + 2, errs, *other);
            assert(Some(Box::new(*other)) == el_if);
            reveal(grammar::parse_else);
        },
        None => match alternative {
            Some(other) => {
                let o = block_tokens(other);
                let el = plain(TokenKind::Else);
                lemma_block_ends(other);
                lemma_stand_add(ts, pos + 1, el, o);
                lemma_stand_one(ts, pos + 1, el);
                lemma_stand_one(ts, pos + 2, o);
                lemma_block(ts, pos + 2, errs, other);
                reveal(grammar::parse_else);
            },
            None => {
                reveal(grammar::parse_else);
            },
        },
    }
}

/// A conditional parses to itself.
#[verifier::spinoff_prover]
pub proof fn lemma_if_form(ts: Seq<TokenView>, pos: nat, errs: Seq<Seq<char>>, e: ExprView)
    requires
        e is If,
        wf_expr(e),
        stand_at(ts, pos, expr_tokens(e)),
        follower_ok(kind_at(ts, pos + expr_tokens(e).len())),
    ensures
        grammar::parse_if_expression(ts, pos, errs) == done(
            e,
            (expr_tokens(e).len() - 1) as nat,
            errs,
        ),
    decreases e, 3nat,
{
    let condition = *(e->If_condition);
    let consequence = e->If_consequence->Some_0;
    let kw = plain(TokenKind::If);
    let c = expr_tokens(condition);
    let b = block_tokens(consequence);
    let tail = else_tokens(e);
    assert(expr_tokens(e) == kw + c + b + tail);
    lemma_first(condition);
    lemma_block_ends(consequence);
    let nc = c.len();
    let nb = b.len();
    lemma_stand_add(ts, pos, kw + c + b, tail);
    lemma_stand_add(ts, pos, kw + c, b);
    lemma_stand_add(ts, pos, kw, c);
    lemma_stand_one(ts, pos, kw);
    lemma_stand_one(ts, (pos + 1 + nc) as nat, b);
    lemma_expression_done(ts, pos + 1, errs, Precedence::Lowest, condition);
    lemma_block(ts, (pos + 1 + nc) as nat, errs, consequence);
    lemma_else(ts, (pos + nc + nb) as nat, errs, e);
    let made = grammar::conditional(
        condition,
        consequence,
        ElseView { alternative: e->If_alternative, el_if: e->If_el_if },
    );
    assert(made == e);
    reveal(grammar::parse_if_expression);
}

/// A loop parses to itself.
#[verifier::spinoff_prover]
pub proof fn lemma_while_form(ts: Seq<TokenView>, pos: nat, errs: Seq<Seq<char>>, e: ExprView)
    requires
        e is While,
        wf_expr(e),
        stand_at(ts, pos, expr_tokens(e)),
    ensures
        grammar::parse_while_expression(ts, pos, errs) == done(
            e,
            (expr_tokens(e).len() - 1) as nat,
            errs,
        ),
    decreases e, 3nat,
{
    let condition = *(e->While_condition);
    let consequence = e->While_consequence->Some_0;
    let kw = plain(TokenKind::While);
    let c = expr_tokens(condition);
    let b = block_tokens(consequence);
    assert(expr_tokens(e) == kw + c + b);
    lemma_first(condition);
    lemma_block_ends(consequence);
    let nc = c.len();
    lemma_stand_add(ts, pos, kw + c, b);
    lemma_stand_add(ts, pos, kw, c);
    lemma_stand_one(ts, pos, kw);
    lemma_stand_one(ts, (pos + 1 + nc) as nat, b);
    lemma_expression_done(ts, pos + 1, errs, Precedence::Lowest, condition);
    lemma_block(ts, (pos + 1 + nc) as nat, errs, consequence);
    reveal(grammar::parse_while_expression);
}

/// The tokens behind a parameter start with a comma or with the closing
/// bracket.
pub proof fn lemma_more_params_start(ps: Seq<IdentView>, from: nat)
    ensures
        (more_param_tokens(ps, from) + plain(TokenKind::RParen)).len() >= 1,
        (more_param_tokens(ps, from) + plain(TokenKind::RParen))[0].kind == (if from < ps.len() {
            TokenKind::Comma
        } else {
            TokenKind::RParen
        }),
{
    if from < ps.len() {
        let more = more_param_tokens(ps, from);
        assert(more == plain(TokenKind::Comma) + param_tokens(ps[from as int])
            + more_param_tokens(ps, from + 1));
        assert(more[0] == plain(TokenKind::Comma)[0]);
        assert((more + plain(TokenKind::RParen))[0] == more[0]);
    }
}

/// A parameter parses to itself: it takes the type keyword behind it, if
/// there is one.
pub proof fn lemma_param(ts: Seq<TokenView>, pos: nat, errs: Seq<Seq<char>>, p: IdentView)
    requires
        wf_param(p),
        stand_at(ts, pos, param_tokens(p)),
        !is_type_kind(kind_at(ts, pos + param_tokens(p).len())),
    ensures
        param_tokens(p).len() >= 1,
        grammar::create_identifier(ts, pos, errs, true) == done(
            p,
            (param_tokens(p).len() - 1) as nat,
            errs,
        ),
{
    lemma_stand_one(ts, pos, param_tokens(p));
    match p.typ {
        Some(t) => {
            lemma_type_kind(t);
            let name = word(TokenKind::Ident, p.value);
            lemma_stand_add(ts, pos, name, type_tokens(t));
            lemma_stand_one(ts, pos + 1, type_tokens(t));
        },
        None => {},
    }
}

/// The parameters behind the first parse to themselves.
#[verifier::spinoff_prover]
pub proof fn lemma_more_params(
    ts: Seq<TokenView>,
    pos: nat,
    errs: Seq<Seq<char>>,
    ps: Seq<IdentView>,
    from: nat,
)
    requires
        forall|i: int| 0 <= i < ps.len() ==> wf_param(#[trigger] ps[i]),
        1 <= from <= ps.len(),
        stand_at(ts, pos + 1, more_param_tokens(ps, from) + plain(TokenKind::RParen)),
    ensures
        grammar::parse_more_parameters(ts, pos, errs, ps.take(from as int)) == done(
            ps,
            more_param_tokens(ps, from).len() + 1,
            errs,
        ),
    decreases ps.len() - from,
{
    reveal(grammar::parse_more_parameters);
    let more = more_param_tokens(ps, from);
    let close = plain(TokenKind::RParen);
    lemma_more_params_start(ps, from);
    lemma_stand_one(ts, pos + 1, more + close);
    if from == ps.len() {
        assert(ps.take(from as int) =~= ps);
    } else {
        let p = ps[from as int];
        let head = param_tokens(p);
        let rest = more_param_tokens(ps, from + 1);
        let comma = plain(TokenKind::Comma);
        assert(more == comma + head + rest);
        let n = head.len();
        lemma_stand_add(ts, pos + 1, more, close);
        lemma_stand_add(ts, pos + 1, comma + head, rest);
        lemma_stand_add(ts, pos + 1, comma, head);
        assert(stand_at(ts, (pos + 2 + n) as nat, rest + close)) by {
            assert forall|i: int| 0 <= i < (rest + close).len() implies kind_at(
                ts,
                (pos + 2 + n + i) as nat,
            ) == (#[trigger] (rest + close)[i]).kind && text_at(ts, (pos + 2 + n + i) as nat)
                == (rest + close)[i].text by {
                let j = 1 + n + i;
                assert(kind_at(ts, (pos + 1 + j) as nat) == (more + close)[j].kind);
                assert(text_at(ts, (pos + 1 + j) as nat) == (more + close)[j].text);
                if i < rest.len() {
                    assert((rest + close)[i] == rest[i]);
                    assert((more + close)[j] == more[j]);
                    assert(more[j] == rest[i]);
                } else {
                    assert((rest + close)[i] == close[i - rest.len()]);
                    assert((more + close)[j] == close[j - more.len()]);
                }
            }
        }
        lemma_more_params_start(ps, from + 1);
        lemma_stand_one(ts, (pos + 2 + n) as nat, rest + close);
        lemma_param(ts, pos + 2, errs, p);
        assert(ps.take(from as int).push(p) =~= ps.take(from + 1 as int));
        lemma_more_params(ts, (pos + 1 + n) as nat, errs, ps, from + 1);
    }
}

/// A parameter list parses to its parameters.
#[verifier::spinoff_prover]
pub proof fn lemma_params(ts: Seq<TokenView>, pos: nat, errs: Seq<Seq<char>>, ps: Seq<IdentView>)
    requires
        forall|i: int| 0 <= i < ps.len() ==> wf_param(#[trigger] ps[i]),
        kind_at(ts, pos) != TokenKind::EOF,
        stand_at(ts, pos + 1, params_tokens(ps) + plain(TokenKind::RParen)),
    ensures
        grammar::parse_function_parameters(ts, pos, errs) == done(
            ps,
            params_tokens(ps).len() + 1,
            errs,
        ),
{
    let list = params_tokens(ps);
    let close = plain(TokenKind::RParen);
    lemma_stand_add(ts, pos + 1, list, close);
    if ps.len() == 0 {
        lemma_stand_one(ts, pos + 1, close);
        assert(ps =~= Seq::<IdentView>::empty());
    } else {
        let p = ps[0];
        let head = param_tokens(p);
        let more = more_param_tokens(ps, 1);
        assert(list == head + more);
        let n = head.len();
        assert(n >= 1);
        lemma_stand_add(ts, pos + 1, head, more);
        lemma_stand_one(ts, pos + 1, head);
        assert(stand_at(ts, (pos + 1 + n) as nat, more + close)) by {
            assert forall|i: int| 0 <= i < (more + close).len() implies kind_at(
                ts,
                (pos + 1 + n + i) as nat,
            ) == (#[trigger] (more + close)[i]).kind && text_at(ts, (pos + 1 + n + i) as nat)
                == (more + close)[i].text by {
                assert(kind_at(ts, (pos + 1 + (n + i)) as nat) == (list + close)[n + i].kind);
                assert(text_at(ts, (pos + 1 + (n + i)) as nat) == (list + close)[n + i].text);
                if i < more.len() {
                    assert((more + close)[i] == more[i]);
                    assert((list + close)[n + i] == list[n + i]);
                    assert(list[n + i] == more[i]);
                } else {
                    assert((more + close)[i] == close[i - more.len()]);
                    assert((list + close)[n + i] == close[n + i - list.len()]);
                }
            }
        }
        lemma_more_params_start(ps, 1);
        lemma_stand_one(ts, (pos + 1 + n) as nat, more + close);
        lemma_param(ts, pos + 1, errs, p);
        assert(seq![p] =~= ps.take(1));
        lemma_more_params(ts, (pos + n) as nat, errs, ps, 1);
    }
}

/// A function literal parses to itself.
#[verifier::spinoff_prover]
pub proof fn lemma_function_form(ts: Seq<TokenView>, pos: nat, errs: Seq<Seq<char>>, e: ExprView)
    requires
        e is Function,
        wf_expr(e),
        stand_at(ts, pos, expr_tokens(e)),
    ensures
        grammar::parse_function_literal(ts, pos, errs) == done(
            e,
            (expr_tokens(e).len() - 1) as nat,
            errs,
        ),
    decreases e, 3nat,
{
    let name = e->Function_name;
    let parameters = e->Function_parameters;
    let body = e->Function_body->Some_0;
    let ret_typ = e->Function_ret_typ;
    let kw = plain(TokenKind::Function);
    let id = word(TokenKind::Ident, name.value);
    let open = plain(TokenKind::LParen);
    let ps = params_tokens(parameters);
    let close = plain(TokenKind::RParen);
    let rt = ret_tokens(ret_typ);
    let b = block_tokens(body);
    assert(expr_tokens(e) == kw + id + open + ps + close + rt + b);
    lemma_block_ends(body);
    let np = ps.len();
    let nr = rt.len();
    lemma_stand_add(ts, pos, kw + id + open + ps + close + rt, b);
    lemma_stand_add(ts, pos, kw + id + open + ps + close, rt);
    lemma_stand_add(ts, pos, kw + id + open + ps, close);
    lemma_stand_add(ts, pos, kw + id + open, ps);
    lemma_stand_add(ts, pos, kw + id, open);
    lemma_stand_add(ts, pos, kw, id);
    lemma_stand_one(ts, pos, kw);
    lemma_stand_one(ts, pos + 1, id);
    lemma_stand_one(ts, pos + 2, open);
    lemma_stand_one(ts, (pos + 3 + np) as nat, close);
    lemma_stand_one(ts, (pos + 4 + np + nr) as nat, b);
    assert(stand_at(ts, pos + 3, ps + close)) by {
        assert forall|i: int| 0 <= i < (ps + close).len() implies kind_at(
            ts,
            (pos + 3 + i) as nat,
        ) == (#[trigger] (ps + close)[i]).kind && text_at(ts, (pos + 3 + i) as nat) == (ps
            + close)[i].text by {
            if i < ps.len() {
                assert((ps + close)[i] == ps[i]);
                assert(kind_at(ts, (pos + 3 + i) as nat) == ps[i].kind);
            } else {
                assert((ps + close)[i] == close[i - ps.len()]);
                assert(kind_at(ts, (pos + 3 + np + (i - np)) as nat) == close[i - np].kind);
            }
        }
    }
    lemma_params(ts, pos + 2, errs, parameters);
    if nr > 0 {
        lemma_type_kind(ret_typ);
        lemma_stand_one(ts, (pos + 4 + np) as nat, rt);
    }
    lemma_block(ts, (pos + 4 + np + nr) as nat, errs, body);
    reveal(grammar::parse_function_literal);
}

/// The tokens of a statement start with a token with which no block ends.
pub proof fn lemma_statement_starts(s: StmtView)
    requires
        wf_stmt(s),
    ensures
        stmt_tokens(s).len() >= 1,
        stmt_tokens(s)[0].kind != TokenKind::Rbrace,
        stmt_tokens(s)[0].kind != TokenKind::EOF,
        s is Expression ==> opens(stmt_tokens(s)[0].kind),
        s is Let ==> stmt_tokens(s)[0].kind == TokenKind::Let,
        s is Var ==> stmt_tokens(s)[0].kind == TokenKind::Var,
        s is Return ==> stmt_tokens(s)[0].kind == TokenKind::Return,
{
    match s {
        StmtView::Expression { expression, .. } => {
            lemma_first(expression->Some_0);
        },
        _ => {},
    }
}

/// What a statement leaves behind: the token on which the parser ends is
/// the last token of the statement, or the semicolon behind an expression
/// statement.
pub open spec fn statement_used(s: StmtView, follower: TokenKind) -> nat {
    if s is Expression && follower == TokenKind::Semicolon {
        stmt_tokens(s).len()
    } else {
        (stmt_tokens(s).len() - 1) as nat
    }
}

/// A binding parses to itself.
#[verifier::spinoff_prover]
pub proof fn lemma_binding(ts: Seq<TokenView>, pos: nat, errs: Seq<Seq<char>>, s: StmtView)
    requires
        s is Let || s is Var,
        wf_stmt(s),
        stand_at(ts, pos, stmt_tokens(s)),
    ensures
        grammar::parse_let_var(ts, pos, errs, s is Let) == done(
            s,
            (stmt_tokens(s).len() - 1) as nat,
            errs,
        ),
    decreases s, 0nat,
{
    let name = if s is Let {
        s->Let_name
    } else {
        s->Var_name
    };
    let typ = if s is Let {
        s->Let_typ
    } else {
        s->Var_typ
    };
    let value = if s is Let {
        s->Let_value
    } else {
        s->Var_value
    };
    let kw = if s is Let {
        plain(TokenKind::Let)
    } else {
        plain(TokenKind::Var)
    };
    let id = word(TokenKind::Ident, name);
    let ty = type_tokens(typ);
    let eq = plain(TokenKind::Assign);
    let v = expr_tokens(value);
    let semi = plain(TokenKind::Semicolon);
    assert(stmt_tokens(s) == kw + id + ty + eq + v + semi);
    lemma_first(value);
    let nt = ty.len();
    let nv = v.len();
    lemma_stand_add(ts, pos, kw + id + ty + eq + v, semi);
    lemma_stand_add(ts, pos, kw + id + ty + eq, v);
    lemma_stand_add(ts, pos, kw + id + ty, eq);
    lemma_stand_add(ts, pos, kw + id, ty);
    lemma_stand_add(ts, pos, kw, id);
    lemma_stand_one(ts, pos + 1, id);
    lemma_stand_one(ts, (pos + 2 + nt) as nat, eq);
    lemma_stand_one(ts, (pos + 3 + nt + nv) as nat, semi);
    if nt > 0 {
        lemma_type_kind(typ);
        lemma_stand_one(ts, pos + 2, ty);
    }
    lemma_expression_done(ts, (pos + 3 + nt) as nat, errs, Precedence::Lowest, value);
    reveal(grammar::parse_let_var);
}

/// A statement parses to itself.  Behind an expression statement stands a
/// semicolon, which the statement takes, or the end of its block or of
/// the input.
#[verifier::spinoff_prover]
pub proof fn lemma_statement(ts: Seq<TokenView>, pos: nat, errs: Seq<Seq<char>>, s: StmtView)
    requires
        wf_stmt(s),
        stand_at(ts, pos, stmt_tokens(s)),
        s is Expression ==> ({
            let k = kind_at(ts, pos + stmt_tokens(s).len());
            k == TokenKind::Semicolon || k == TokenKind::Rbrace || k == TokenKind::EOF
        }),
    ensures
        grammar::parse_statement(ts, pos, errs) == done(
            s,
            statement_used(s, kind_at(ts, pos + stmt_tokens(s).len())),
            errs,
        ),
    decreases s, 1nat,
{
    lemma_statement_starts(s);
    lemma_stand_one(ts, pos, stmt_tokens(s));
    reveal(grammar::parse_statement);
    match s {
        StmtView::Let { .. } => {
            lemma_binding(ts, pos, errs, s);
        },
        StmtView::Var { .. } => {
            lemma_binding(ts, pos, errs, s);
        },
        StmtView::Return(value) => {
            let e = value->Some_0;
            let kw = plain(TokenKind::Return);
            let v = expr_tokens(e);
            let semi = plain(TokenKind::Semicolon);
            assert(stmt_tokens(s) == kw + v + semi);
            lemma_first(e);
            lemma_stand_add(ts, pos, kw + v, semi);
            lemma_stand_add(ts, pos, kw, v);
            lemma_stand_one(ts, (pos + 1 + v.len()) as nat, semi);
            lemma_expression_done(ts, pos + 1, errs, Precedence::Lowest, e);
            reveal(grammar::parse_return);
        },
        StmtView::Expression { expression, .. } => {
            let e = expression->Some_0;
            lemma_first(e);
            lemma_expression_done(ts, pos, errs, Precedence::Lowest, e);
            reveal(grammar::parse_expression_statement);
        },
        StmtView::Block(_) => {},
    }
}

/// The tokens behind a statement of a sequence start with the separator,
/// with the next statement, or with what ends the sequence.
pub proof fn lemma_statements_next(stmts: Seq<StmtView>, from: nat, end: TokenKind)
    requires
        wf_stmts(stmts),
        from < stmts.len(),
    ensures
        ({
            let rest = separator_tokens(stmts, from) + stmts_tokens(stmts, from + 1) + plain(end);
            &&& rest.len() >= 1
            &&& stmts[from as int] is Expression ==> rest[0].kind == (if from + 1 < stmts.len() {
                TokenKind::Semicolon
            } else {
                end
            })
        }),
{
    if from + 1 < stmts.len() {
        lemma_statement_starts(stmts[from + 1 as int]);
        let next = stmts_tokens(stmts, from + 1);
        assert(next == stmt_tokens(stmts[from + 1 as int]) + separator_tokens(stmts, from + 1)
            + stmts_tokens(stmts, from + 2));
    } else {
        assert(stmts_tokens(stmts, from + 1) =~= Seq::<Tok>::empty());
    }
}

/// The statements of a block parse to themselves.
#[verifier::spinoff_prover]
pub proof fn lemma_statements(
    ts: Seq<TokenView>,
    pos: nat,
    errs: Seq<Seq<char>>,
    stmts: Seq<StmtView>,
    from: nat,
)
    requires
        wf_stmts(stmts),
        from <= stmts.len(),
        stand_at(ts, pos, stmts_tokens(stmts, from) + plain(TokenKind::Rbrace)),
    ensures
        grammar::parse_statements(ts, pos, errs, stmts.take(from as int)) == (ParsedBlock {
            statements: stmts,
            used: stmts_tokens(stmts, from).len(),
            errors: errs,
        }),
    decreases stmts, stmts.len() - from,
{
    reveal(grammar::parse_statements);
    let all = stmts_tokens(stmts, from);
    let end = plain(TokenKind::Rbrace);
    if from == stmts.len() {
        assert(all =~= Seq::<Tok>::empty());
        lemma_stand_one(ts, pos, all + end);
        assert(stmts.take(from as int) =~= stmts);
    } else {
        let s = stmts[from as int];
        let head = stmt_tokens(s);
        let sep = separator_tokens(stmts, from);
        let rest = stmts_tokens(stmts, from + 1);
        assert(all == head + sep + rest);
        lemma_statement_starts(s);
        lemma_statements_next(stmts, from, TokenKind::Rbrace);
        let n = head.len();
        let tail = sep + rest + end;
        assert(all + end =~= head + tail);
        lemma_stand_add(ts, pos, head, tail);
        lemma_stand_one(ts, pos, head);
        lemma_stand_one(ts, (pos + n) as nat, tail);
        lemma_statement(ts, pos, errs, s);
        let used = statement_used(s, kind_at(ts, (pos + n) as nat));
        // The parser ends on a token of the statement or on the separator.
        assert(kind_at(ts, (pos + used) as nat) != TokenKind::EOF) by {
            if used == n {
            } else {
                lemma_statement_ends(s);
                assert(kind_at(ts, (pos + (n - 1)) as nat) == head[n - 1].kind);
            }
        }
        assert(tail =~= sep + (rest + end));
        lemma_stand_add(ts, (pos + n) as nat, sep, rest + end);
        assert(used + 1 == n + sep.len()) by {
            if s is Expression {
            } else {
                assert(sep.len() == 0);
            }
        }
        assert(stmts.take(from as int).push(s) =~= stmts.take(from + 1 as int));
        lemma_statements(ts, (pos + used + 1) as nat, errs, stmts, from + 1);
    }
}

/// The tokens of a statement end with a token that is not the end of the
/// input.
pub proof fn lemma_statement_ends(s: StmtView)
    requires
        wf_stmt(s),
    ensures
        stmt_tokens(s).len() >= 1,
        stmt_tokens(s).last().kind != TokenKind::EOF,
        stmt_tokens(s).last().kind != TokenKind::Else,
        !is_type_kind(stmt_tokens(s).last().kind),
{
    match s {
        StmtView::Expression { expression, .. } => {
            lemma_last(expression->Some_0);
        },
        StmtView::Return(value) => {
            lemma_first(value->Some_0);
        },
        StmtView::Let { value, .. } => {
            lemma_first(value);
        },
        StmtView::Var { value, .. } => {
            lemma_first(value);
        },
        _ => {},
    }
}

/// A block parses to its statements.
#[verifier::spinoff_prover]
pub proof fn lemma_block(ts: Seq<TokenView>, pos: nat, errs: Seq<Seq<char>>, stmts: Seq<StmtView>)
    requires
        wf_stmts(stmts),
        stand_at(ts, pos, block_tokens(stmts)),
    ensures
        grammar::parse_block_statement(ts, pos, errs) == (ParsedBlock {
            statements: stmts,
            used: (block_tokens(stmts).len() - 1) as nat,
            errors: errs,
        }),
    decreases stmts, stmts.len() + 1,
{
    let open = plain(TokenKind::LBrace);
    let inner = stmts_tokens(stmts, 0);
    let close = plain(TokenKind::Rbrace);
    assert(block_tokens(stmts) == open + inner + close);
    assert(open + inner + close =~= open + (inner + close));
    lemma_stand_add(ts, pos, open, inner + close);
    lemma_stand_one(ts, pos, open);
    assert(stmts.take(0) =~= Seq::<StmtView>::empty());
    lemma_statements(ts, pos + 1, errs, stmts, 0);
    reveal(grammar::parse_block_statement);
}

/// The statements of a program parse to themselves.
#[verifier::spinoff_prover]
pub proof fn lemma_program(
    ts: Seq<TokenView>,
    pos: nat,
    errs: Seq<Seq<char>>,
    stmts: Seq<StmtView>,
    from: nat,
)
    requires
        wf_stmts(stmts),
        from <= stmts.len(),
        stand_at(ts, pos, stmts_tokens(stmts, from) + plain(TokenKind::EOF)),
    ensures
        grammar::parse_program(ts, pos, errs, stmts.take(from as int)) == (ParsedProgram {
            statements: stmts,
            errors: errs,
        }),
    decreases stmts.len() - from,
{
    reveal(grammar::parse_program);
    let all = stmts_tokens(stmts, from);
    let end = plain(TokenKind::EOF);
    if from == stmts.len() {
        assert(all =~= Seq::<Tok>::empty());
        lemma_stand_one(ts, pos, all + end);
        assert(stmts.take(from as int) =~= stmts);
        reveal(grammar::parse_statement);
    } else {
        let s = stmts[from as int];
        let head = stmt_tokens(s);
        let sep = separator_tokens(stmts, from);
        let rest = stmts_tokens(stmts, from + 1);
        assert(all == head + sep + rest);
        lemma_statement_starts(s);
        lemma_statements_next(stmts, from, TokenKind::EOF);
        let n = head.len();
        let tail = sep + rest + end;
        assert(all + end =~= head + tail);
        lemma_stand_add(ts, pos, head, tail);
        lemma_stand_one(ts, pos, head);
        lemma_stand_one(ts, (pos + n) as nat, tail);
        lemma_statement(ts, pos, errs, s);
        let used = statement_used(s, kind_at(ts, (pos + n) as nat));
        assert(kind_at(ts, (pos + used) as nat) != TokenKind::EOF) by {
            if used == n {
            } else {
                lemma_statement_ends(s);
                assert(kind_at(ts, (pos + (n - 1)) as nat) == head[n - 1].kind);
            }
        }
        assert(tail =~= sep + (rest + end));
        lemma_stand_add(ts, (pos + n) as nat, sep, rest + end);
        assert(used + 1 == n + sep.len()) by {
            if s is Expression {
            } else {
                assert(sep.len() == 0);
            }
        }
        assert(stmts.take(from as int).push(s) =~= stmts.take(from + 1 as int));
        lemma_program(ts, (pos + used + 1) as nat, errs, stmts, from + 1);
    }
}

/// The tokens of a program parse to the program: for every sequence of
/// statements that the parser can give, and for every sequence of tokens
/// that holds the tokens of the statements and then ends, parsing gives
/// the statements again and no diagnostic.
pub proof fn lemma_program_round_trip(ts: Seq<TokenView>, stmts: Seq<StmtView>)
    requires
        wf_stmts(stmts),
        stand_at(ts, 0, stmts_tokens(stmts, 0) + plain(TokenKind::EOF)),
    ensures
        grammar::parse_program(ts, 0, Seq::empty(), Seq::empty()) == (ParsedProgram {
            statements: stmts,
            errors: Seq::empty(),
        }),
{
    assert(stmts.take(0) =~= Seq::<StmtView>::empty());
    lemma_program(ts, 0, Seq::empty(), stmts, 0);
}

} // verus!
