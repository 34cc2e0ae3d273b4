//! What the parser can give: every tree that it gives is one for which
//! the way back to tokens is defined.

use crate::ast::model::{ExprView, IdentView, StmtView};
use crate::ast::types::Type;
use crate::lexer::token::{TokenKind, TokenView};
use crate::parser::errors::ParseErrorView;
use crate::parser::grammar;
use crate::parser::grammar::{is_type_kind, kind_at, remaining, text_at, InfixForm};
use crate::parser::precedence::Precedence;
use crate::parser::unparse::{
    binary_kind, is_binary_kind, is_binary_operator, is_prefix_operator, ok_expr, ok_exprs,
    ok_stmt, prefix_kind, sound_expr, sound_stmts, string_ok, token_ok, tokens_ok, wf_expr,
    wf_exprs, wf_param, wf_stmt, word_ok,
};
use vstd::prelude::*;

verus! {

/// The kind of a prefix operator is the kind of its spelling.
pub proof fn lemma_prefix_literal(kind: TokenKind)
    requires
        kind == TokenKind::Minus || kind == TokenKind::Bang,
    ensures
        is_prefix_operator(kind.literal()),
        prefix_kind(kind.literal()) == kind,
{
    reveal_strlit("-");
    reveal_strlit("!");
    if kind == TokenKind::Bang {
        assert("!"@[0] == '!');
        assert("-"@[0] == '-');
        assert("!"@ != "-"@);
    }
}

/// The kind of a binary operator is the kind of its spelling.
pub proof fn lemma_binary_literal(kind: TokenKind)
    requires
        is_binary_kind(kind),
    ensures
        is_binary_operator(kind.literal()),
        binary_kind(kind.literal()) == kind,
{
    reveal_strlit("+");
    reveal_strlit("-");
    reveal_strlit("/");
    reveal_strlit("*");
    reveal_strlit("==");
    reveal_strlit("!=");
    reveal_strlit("<");
    reveal_strlit(">");
    reveal_strlit(">=");
    reveal_strlit("<=");
    reveal_strlit("&&");
    reveal_strlit("||");
    reveal_strlit("=");
    let s = kind.literal();
    assert(s.len() >= 1);
    assert("+"@[0] == '+' && "-"@[0] == '-' && "/"@[0] == '/' && "*"@[0] == '*');
    assert("=="@[0] == '=' && "!="@[0] == '!' && "<"@[0] == '<' && ">"@[0] == '>');
    assert(">="@[0] == '>' && "<="@[0] == '<' && "&&"@[0] == '&' && "||"@[0] == '|');
    assert("="@[0] == '=');
}

/// A token of the lexer that is an identifier carries a name.
pub proof fn lemma_identifier_token(ts: Seq<TokenView>, pos: nat)
    requires
        tokens_ok(ts),
        kind_at(ts, pos) == TokenKind::Ident,
    ensures
        text_at(ts, pos) matches Some(name) && word_ok(name),
{
    assert(token_ok(ts[pos as int]));
}

/// A token of the lexer that is a string carries a text without quotes.
pub proof fn lemma_string_token(ts: Seq<TokenView>, pos: nat)
    requires
        tokens_ok(ts),
        kind_at(ts, pos) == TokenKind::String,
    ensures
        text_at(ts, pos) matches Some(s) && string_ok(s),
{
    assert(token_ok(ts[pos as int]));
}

/// An identifier that parses is a name, and its type, if it has one, is
/// one that a keyword names.
pub proof fn lemma_image_identifier(
    ts: Seq<TokenView>,
    pos: nat,
    errs: Seq<Seq<char>>,
    skip_type: bool,
)
    requires
        tokens_ok(ts),
    ensures
        grammar::create_identifier(ts, pos, errs, skip_type).result matches Ok(i) ==> word_ok(
            i.value,
        ) && wf_param(i) && (i.typ is Some <==> is_type_kind(kind_at(ts, pos + 1))),
{
    if kind_at(ts, pos) == TokenKind::Ident {
        lemma_identifier_token(ts, pos);
    }
}

/// An expression that parses is sound.
#[verifier::spinoff_prover]
pub proof fn lemma_image_expression(
    ts: Seq<TokenView>,
    pos: nat,
    errs: Seq<Seq<char>>,
    prec: Precedence,
)
    requires
        tokens_ok(ts),
    ensures
        grammar::parse_expression(ts, pos, errs, prec).result matches Ok(e) ==> sound_expr(e),
    decreases remaining(ts, pos), 4nat,
{
    reveal(grammar::parse_expression);
    lemma_image_prefix(ts, pos, errs);
    let r = grammar::parse_prefix(ts, pos, errs);
    match r.result {
        Ok(left) => {
            lemma_image_operators(ts, pos + r.used, r.errors, prec, left);
        },
        Err(_) => {},
    }
}

/// A prefix form that parses is sound.
#[verifier::spinoff_prover]
pub proof fn lemma_image_prefix(ts: Seq<TokenView>, pos: nat, errs: Seq<Seq<char>>)
    requires
        tokens_ok(ts),
    ensures
        grammar::parse_prefix(ts, pos, errs).result matches Ok(e) ==> sound_expr(e),
    decreases remaining(ts, pos), 3nat,
{
    reveal(grammar::parse_prefix);
    match kind_at(ts, pos) {
        TokenKind::Ident => {
            lemma_identifier_token(ts, pos);
        },
        TokenKind::Number => {},
        TokenKind::Minus | TokenKind::Bang => {
            lemma_image_prefix_expression(ts, pos, errs);
        },
        TokenKind::True | TokenKind::False => {},
        TokenKind::String => {
            lemma_string_token(ts, pos);
        },
        TokenKind::LParen => {
            lemma_image_grouped(ts, pos, errs);
        },
        TokenKind::LSqBracket => {
            lemma_image_array(ts, pos, errs);
        },
        TokenKind::If => {
            lemma_image_if(ts, pos, errs);
        },
        TokenKind::While => {
            lemma_image_while(ts, pos, errs);
        },
        TokenKind::Function => {
            lemma_image_function(ts, pos, errs);
        },
        _ => {},
    }
}

/// The operators behind a sound operand give a sound expression.
#[verifier::spinoff_prover]
pub proof fn lemma_image_operators(
    ts: Seq<TokenView>,
    pos: nat,
    errs: Seq<Seq<char>>,
    prec: Precedence,
    left: ExprView,
)
    requires
        tokens_ok(ts),
        sound_expr(left),
    ensures
        grammar::parse_operators(ts, pos, errs, prec, left).result matches Ok(e) ==> sound_expr(e),
    decreases remaining(ts, pos), 2nat,
{
    reveal(grammar::parse_operators);
    let next = kind_at(ts, pos + 1);
    if kind_at(ts, pos) != TokenKind::Semicolon && prec.rank() < crate::parser::precedence::precedence_of(
        next,
    ).rank() {
        match grammar::infix_form(next) {
            None => {},
            Some(form) => {
                lemma_image_infix(ts, pos + 1, errs, form, left);
                let r = grammar::parse_infix(ts, pos + 1, errs, form, left);
                match r.result {
                    Ok(e) => {
                        lemma_image_operators(ts, pos + 1 + r.used, r.errors, prec, e);
                    },
                    Err(_) => {},
                }
            },
        }
    }
}

/// The form that an operator introduces behind a sound operand is sound.
#[verifier::spinoff_prover]
pub proof fn lemma_image_infix(
    ts: Seq<TokenView>,
    pos: nat,
    errs: Seq<Seq<char>>,
    form: InfixForm,
    left: ExprView,
)
    requires
        tokens_ok(ts),
        sound_expr(left),
        grammar::infix_form(kind_at(ts, pos)) == Some(form),
    ensures
        grammar::parse_infix(ts, pos, errs, form, left).result matches Ok(e) ==> sound_expr(e),
    decreases remaining(ts, pos), 3nat,
{
    reveal(grammar::parse_infix);
    match form {
        InfixForm::Binary => {
            lemma_image_infix_expression(ts, pos, errs, left);
        },
        InfixForm::Call => {
            reveal(grammar::parse_call_expression);
            lemma_image_list(ts, pos, errs, TokenKind::RParen);
        },
        InfixForm::Index => {
            reveal(grammar::parse_index_expression);
            if kind_at(ts, pos) != TokenKind::EOF {
                lemma_image_expression(ts, pos + 1, errs, Precedence::Lowest);
            }
        },
    }
}

/// A prefix operator with a sound operand is sound.
#[verifier::spinoff_prover]
pub proof fn lemma_image_prefix_expression(ts: Seq<TokenView>, pos: nat, errs: Seq<Seq<char>>)
    requires
        tokens_ok(ts),
        kind_at(ts, pos) == TokenKind::Minus || kind_at(ts, pos) == TokenKind::Bang,
    ensures
        grammar::parse_prefix_expression(ts, pos, errs).result matches Ok(e) ==> sound_expr(e),
    decreases remaining(ts, pos), 1nat,
{
    reveal(grammar::parse_prefix_expression);
    lemma_prefix_literal(kind_at(ts, pos));
    lemma_image_expression(ts, pos + 1, errs, Precedence::Prefix);
}

/// A binary operator between sound operands is sound.
#[verifier::spinoff_prover]
pub proof fn lemma_image_infix_expression(
    ts: Seq<TokenView>,
    pos: nat,
    errs: Seq<Seq<char>>,
    left: ExprView,
)
    requires
        tokens_ok(ts),
        sound_expr(left),
        is_binary_kind(kind_at(ts, pos)),
    ensures
        grammar::parse_infix_expression(ts, pos, errs, left).result matches Ok(e) ==> sound_expr(
            e,
        ),
    decreases remaining(ts, pos), 1nat,
{
    reveal(grammar::parse_infix_expression);
    let kind = kind_at(ts, pos);
    lemma_binary_literal(kind);
    lemma_image_expression(ts, pos + 1, errs, crate::parser::precedence::precedence_of(kind));
}

/// A bracketed expression that parses is sound.
#[verifier::spinoff_prover]
pub proof fn lemma_image_grouped(ts: Seq<TokenView>, pos: nat, errs: Seq<Seq<char>>)
    requires
        tokens_ok(ts),
    ensures
        grammar::parse_grouped_expression(ts, pos, errs).result matches Ok(e) ==> sound_expr(e),
    decreases remaining(ts, pos), 1nat,
{
    reveal(grammar::parse_grouped_expression);
    if kind_at(ts, pos) != TokenKind::EOF {
        lemma_image_expression(ts, pos + 1, errs, Precedence::Lowest);
    }
}

/// The expressions of a list that parses are sound.
#[verifier::spinoff_prover]
pub proof fn lemma_image_list(
    ts: Seq<TokenView>,
    pos: nat,
    errs: Seq<Seq<char>>,
    closing: TokenKind,
)
    requires
        tokens_ok(ts),
    ensures
        grammar::parse_expression_list(ts, pos, errs, closing).result matches Ok(items)
            ==> wf_exprs(items) && ok_exprs(items),
    decreases remaining(ts, pos), 1nat,
{
    reveal(grammar::parse_expression_list);
    if kind_at(ts, pos) != TokenKind::EOF && kind_at(ts, pos + 1) != closing {
        lemma_image_expression(ts, pos + 1, errs, Precedence::Lowest);
        let r = grammar::parse_expression(ts, pos + 1, errs, Precedence::Lowest);
        match r.result {
            Ok(first) => {
                lemma_image_more(ts, pos + 1 + r.used, r.errors, closing, seq![first]);
            },
            Err(_) => {},
        }
    }
}

/// The expressions of the rest of a list that parses are sound.
#[verifier::spinoff_prover]
pub proof fn lemma_image_more(
    ts: Seq<TokenView>,
    pos: nat,
    errs: Seq<Seq<char>>,
    closing: TokenKind,
    acc: Seq<ExprView>,
)
    requires
        tokens_ok(ts),
        wf_exprs(acc),
        ok_exprs(acc),
    ensures
        grammar::parse_more_expressions(ts, pos, errs, closing, acc).result matches Ok(items)
            ==> wf_exprs(items) && ok_exprs(items),
    decreases remaining(ts, pos), 0nat,
{
    reveal(grammar::parse_more_expressions);
    if kind_at(ts, pos + 1) == TokenKind::Comma {
        lemma_image_expression(ts, pos + 2, errs, Precedence::Lowest);
        let r = grammar::parse_expression(ts, pos + 2, errs, Precedence::Lowest);
        match r.result {
            Ok(e) => {
                let next = acc.push(e);
                assert forall|i: int| 0 <= i < next.len() implies wf_expr(#[trigger] next[i])
                    && ok_expr(next[i]) by {
                    if i < acc.len() {
                        assert(next[i] == acc[i]);
                    }
                }
                lemma_image_more(ts, pos + 2 + r.used, r.errors, closing, next);
            },
            Err(_) => {},
        }
    }
}

/// An array literal that parses is sound.
#[verifier::spinoff_prover]
pub proof fn lemma_image_array(ts: Seq<TokenView>, pos: nat, errs: Seq<Seq<char>>)
    requires
        tokens_ok(ts),
    ensures
        grammar::parse_array_literal(ts, pos, errs).result matches Ok(e) ==> sound_expr(e),
    decreases remaining(ts, pos), 2nat,
{
    reveal(grammar::parse_array_literal);
    lemma_image_list(ts, pos, errs, TokenKind::RSqBracket);
}

/// The statements of a block are sound.
#[verifier::spinoff_prover]
pub proof fn lemma_image_statements(
    ts: Seq<TokenView>,
    pos: nat,
    errs: Seq<Seq<char>>,
    acc: Seq<StmtView>,
)
    requires
        tokens_ok(ts),
        sound_stmts(acc),
    ensures
        sound_stmts(grammar::parse_statements(ts, pos, errs, acc).statements),
    decreases remaining(ts, pos), 7nat,
{
    reveal(grammar::parse_statements);
    let kind = kind_at(ts, pos);
    if !(kind == TokenKind::Rbrace || kind == TokenKind::EOF) {
        lemma_image_statement(ts, pos, errs);
        let r = grammar::parse_statement(ts, pos, errs);
        let next = grammar::with_statement(acc, r);
        assert(sound_stmts(next)) by {
            assert forall|i: int| 0 <= i < next.len() implies wf_stmt(#[trigger] next[i])
                && ok_stmt(next[i]) by {
                if i < acc.len() {
                    assert(next[i] == acc[i]);
                }
            }
        }
        if kind_at(ts, pos + r.used) != TokenKind::EOF {
            lemma_image_statements(ts, pos + r.used + 1, grammar::with_diagnostic(r), next);
        }
    }
}

/// The statements of a block are sound.
#[verifier::spinoff_prover]
pub proof fn lemma_image_block(ts: Seq<TokenView>, pos: nat, errs: Seq<Seq<char>>)
    requires
        tokens_ok(ts),
    ensures
        sound_stmts(grammar::parse_block_statement(ts, pos, errs).statements),
    decreases remaining(ts, pos), 0nat,
{
    reveal(grammar::parse_block_statement);
    if kind_at(ts, pos) != TokenKind::EOF {
        lemma_image_statements(ts, pos + 1, errs, Seq::empty());
    }
}

/// A conditional that parses is sound, and it is a conditional.
#[verifier::spinoff_prover]
pub proof fn lemma_image_if(ts: Seq<TokenView>, pos: nat, errs: Seq<Seq<char>>)
    requires
        tokens_ok(ts),
    ensures
        grammar::parse_if_expression(ts, pos, errs).result matches Ok(e) ==> e is If
            && sound_expr(e),
    decreases remaining(ts, pos), 1nat,
{
    reveal(grammar::parse_if_expression);
    if kind_at(ts, pos) != TokenKind::EOF {
        lemma_image_expression(ts, pos + 1, errs, Precedence::Lowest);
        let c = grammar::parse_expression(ts, pos + 1, errs, Precedence::Lowest);
        let brace: nat = 1 + c.used + 1;
        if c.result is Ok && kind_at(ts, pos + brace) == TokenKind::LBrace {
            lemma_image_block(ts, pos + brace, c.errors);
            let b = grammar::parse_block_statement(ts, pos + brace, c.errors);
            lemma_image_else(ts, pos + brace + b.used, b.errors);
        }
    }
}

/// What follows the first block of a conditional is sound: a block, or
/// another conditional and no block.
#[verifier::spinoff_prover]
pub proof fn lemma_image_else(ts: Seq<TokenView>, pos: nat, errs: Seq<Seq<char>>)
    requires
        tokens_ok(ts),
    ensures
        grammar::parse_else(ts, pos, errs).result matches Ok(tail) ==> (match tail.el_if {
            Some(other) => tail.alternative is None && *other is If && sound_expr(*other),
            None => match tail.alternative {
                Some(stmts) => sound_stmts(stmts),
                None => true,
            },
        }),
    decreases remaining(ts, pos), 0nat,
{
    reveal(grammar::parse_else);
    if kind_at(ts, pos + 1) == TokenKind::Else {
        if kind_at(ts, pos + 2) == TokenKind::LBrace {
            lemma_image_block(ts, pos + 2, errs);
        } else if kind_at(ts, pos + 2) == TokenKind::If {
            lemma_image_if(ts, pos + 2, errs);
        }
    }
}

/// A loop that parses is sound.
#[verifier::spinoff_prover]
pub proof fn lemma_image_while(ts: Seq<TokenView>, pos: nat, errs: Seq<Seq<char>>)
    requires
        tokens_ok(ts),
    ensures
        grammar::parse_while_expression(ts, pos, errs).result matches Ok(e) ==> sound_expr(e),
    decreases remaining(ts, pos), 1nat,
{
    reveal(grammar::parse_while_expression);
    if kind_at(ts, pos) != TokenKind::EOF {
        lemma_image_expression(ts, pos + 1, errs, Precedence::Lowest);
        let c = grammar::parse_expression(ts, pos + 1, errs, Precedence::Lowest);
        let brace: nat = 1 + c.used + 1;
        if c.result is Ok && kind_at(ts, pos + brace) == TokenKind::LBrace {
            lemma_image_block(ts, pos + brace, c.errors);
        }
    }
}

/// The parameters of the rest of a parameter list that parses are names
/// with types that keywords name.
#[verifier::spinoff_prover]
pub proof fn lemma_image_more_parameters(
    ts: Seq<TokenView>,
    pos: nat,
    errs: Seq<Seq<char>>,
    acc: Seq<IdentView>,
)
    requires
        tokens_ok(ts),
        forall|i: int| 0 <= i < acc.len() ==> wf_param(#[trigger] acc[i]) && word_ok(acc[i].value),
    ensures
        grammar::parse_more_parameters(ts, pos, errs, acc).result matches Ok(ps) ==> (forall|
            i: int,
        |
            0 <= i < ps.len() ==> wf_param(#[trigger] ps[i]) && word_ok(ps[i].value)),
    decreases remaining(ts, pos),
{
    reveal(grammar::parse_more_parameters);
    if kind_at(ts, pos + 1) == TokenKind::Comma {
        lemma_image_identifier(ts, pos + 2, errs, true);
        let r = grammar::create_identifier(ts, pos + 2, errs, true);
        match r.result {
            Ok(p) => {
                let next = acc.push(p);
                assert forall|i: int| 0 <= i < next.len() implies wf_param(#[trigger] next[i])
                    && word_ok(next[i].value) by {
                    if i < acc.len() {
                        assert(next[i] == acc[i]);
                    }
                }
                lemma_image_more_parameters(ts, pos + 2 + r.used, r.errors, next);
            },
            Err(_) => {},
        }
    }
}

/// The head of a function literal that parses holds names, types that
/// keywords name, and a result type that the language has.
#[verifier::spinoff_prover]
pub proof fn lemma_image_header(ts: Seq<TokenView>, pos: nat, errs: Seq<Seq<char>>)
    requires
        tokens_ok(ts),
    ensures
        grammar::parse_function_header(ts, pos, errs).result matches Ok(h) ==> ({
            &&& h.name.typ is None
            &&& word_ok(h.name.value)
            &&& forall|i: int|
                0 <= i < h.parameters.len() ==> wf_param(#[trigger] h.parameters[i]) && word_ok(
                    h.parameters[i].value,
                )
            &&& (h.ret_typ == Type::Unknown || h.ret_typ == Type::Bool || h.ret_typ == Type::Int
                || h.ret_typ == Type::String)
        }),
{
    if kind_at(ts, pos) != TokenKind::EOF {
        lemma_image_identifier(ts, pos + 1, errs, false);
        if kind_at(ts, pos + 2) == TokenKind::LParen {
            if kind_at(ts, pos + 3) != TokenKind::RParen {
                lemma_image_identifier(ts, pos + 3, errs, true);
                let r = grammar::create_identifier(ts, pos + 3, errs, true);
                match r.result {
                    Ok(p) => {
                        lemma_image_more_parameters(ts, pos + 3 + r.used, r.errors, seq![p]);
                    },
                    Err(_) => {},
                }
            }
        }
    }
}

/// A function literal that parses is sound.
#[verifier::spinoff_prover]
pub proof fn lemma_image_function(ts: Seq<TokenView>, pos: nat, errs: Seq<Seq<char>>)
    requires
        tokens_ok(ts),
    ensures
        grammar::parse_function_literal(ts, pos, errs).result matches Ok(e) ==> sound_expr(e),
    decreases remaining(ts, pos), 1nat,
{
    reveal(grammar::parse_function_literal);
    lemma_image_header(ts, pos, errs);
    let h = grammar::parse_function_header(ts, pos, errs);
    if h.result is Ok && kind_at(ts, pos) != TokenKind::EOF && h.used != 0 {
        lemma_image_block(ts, pos + h.used, h.errors);
    }
}

/// A statement that parses is sound.
#[verifier::spinoff_prover]
pub proof fn lemma_image_statement(ts: Seq<TokenView>, pos: nat, errs: Seq<Seq<char>>)
    requires
        tokens_ok(ts),
    ensures
        grammar::parse_statement(ts, pos, errs).result matches Ok(s) ==> wf_stmt(s) && ok_stmt(s),
    decreases remaining(ts, pos), 6nat,
{
    reveal(grammar::parse_statement);
    match kind_at(ts, pos) {
        TokenKind::Let => {
            lemma_image_let_var(ts, pos, errs, true);
        },
        TokenKind::Var => {
            lemma_image_let_var(ts, pos, errs, false);
        },
        TokenKind::Return => {
            reveal(grammar::parse_return);
            lemma_image_expression(ts, pos + 1, errs, Precedence::Lowest);
        },
        TokenKind::EOF => {},
        _ => {
            reveal(grammar::parse_expression_statement);
            lemma_image_expression(ts, pos, errs, Precedence::Lowest);
        },
    }
}

/// A binding that parses is sound.
#[verifier::spinoff_prover]
pub proof fn lemma_image_let_var(ts: Seq<TokenView>, pos: nat, errs: Seq<Seq<char>>, is_let: bool)
    requires
        tokens_ok(ts),
        kind_at(ts, pos) != TokenKind::EOF,
    ensures
        grammar::parse_let_var(ts, pos, errs, is_let).result matches Ok(s) ==> wf_stmt(s)
            && ok_stmt(s),
    decreases remaining(ts, pos), 5nat,
{
    reveal(grammar::parse_let_var);
    if kind_at(ts, pos + 1) == TokenKind::Ident {
        lemma_image_identifier(ts, pos + 1, errs, false);
        let typed = is_type_kind(kind_at(ts, pos + 2));
        let at: nat = if typed {
            2
        } else {
            1
        };
        if kind_at(ts, pos + at + 1) == TokenKind::Assign {
            lemma_image_expression(ts, pos + at + 2, errs, Precedence::Lowest);
        }
    }
}

/// The statements of a program are sound.
#[verifier::spinoff_prover]
pub proof fn lemma_image_program(
    ts: Seq<TokenView>,
    pos: nat,
    errs: Seq<Seq<char>>,
    acc: Seq<StmtView>,
)
    requires
        tokens_ok(ts),
        sound_stmts(acc),
    ensures
        sound_stmts(grammar::parse_program(ts, pos, errs, acc).statements),
    decreases remaining(ts, pos),
{
    reveal(grammar::parse_program);
    lemma_image_statement(ts, pos, errs);
    let r = grammar::parse_statement(ts, pos, errs);
    if r.result != Err::<StmtView, ParseErrorView>(ParseErrorView::Eof) {
        let next = grammar::with_statement(acc, r);
        assert(sound_stmts(next)) by {
            assert forall|i: int| 0 <= i < next.len() implies wf_stmt(#[trigger] next[i])
                && ok_stmt(next[i]) by {
                if i < acc.len() {
                    assert(next[i] == acc[i]);
                }
            }
        }
        if pos + r.used < ts.len() {
            lemma_image_program(ts, pos + r.used + 1, grammar::with_diagnostic(r), next);
        }
    }
}

} // verus!
