//! Reading what was printed: the lexer reads the text of a tree as the
//! tokens of the tree.
//!
//! For every tree that the parser gives for tokens of the lexer, the
//! lexer reads the source text of the tree as the tokens of the tree.  The
//! laws here prove this form by form; [`lemma_read_program`] states it for
//! whole programs.

use crate::ast::model::{
    block_opt_text, block_text, else_text, expr_opt_text, expr_text, index_gap, list_text,
    operand_text, param_text, params_text, prefix_gap, ret_text, separator, stmt_text, stmts_text,
    type_suffix, ExprView, IdentView, StmtView,
};
use crate::ast::types::Type;
use crate::lexer::token::TokenKind;
use crate::lexer::{
    char_at, is_number, is_whitespace, lemma_token_end, token_at, token_end, tokens_from,
    valid_number_suffix,
};
use crate::parser::grammar::{kind_at, text_at};
use crate::parser::reading::{
    is_keyword, is_single, is_word_char, lemma_keyword, lemma_lex_bang, lemma_lex_binary,
    lemma_lex_identifier, lemma_lex_keyword, lemma_lex_minus, lemma_lex_number,
    lemma_lex_single, lemma_lex_string, lemma_lexes_add, lemma_lexes_space, lemma_spells_add,
    lemma_spells_first, lexes, single, spells,
};
use crate::parser::roundtrip::{lemma_binary_kind, lemma_first};
use crate::parser::unparse::{
    binary_kind, block_tokens, expr_tokens, list_tokens, more_param_tokens, more_tokens, ok_exprs,
    ok_stmt, param_tokens, params_tokens, plain, prefix_kind, ret_tokens, separator_tokens,
    sound_expr, sound_stmts, stand_at, stmt_tokens, stmts_tokens, type_kind, type_tokens, wf_exprs,
    wf_param, wf_stmt, word, word_ok, Tok,
};
use crate::text::{int_text, is_digit, lemma_nat_text, nat_text};
use vstd::prelude::*;

verus! {

/// Whether the character `c` is one that printing puts behind an
/// expression with the text `t`: a blank, a bracket, a comma, a semicolon
/// or the end of the text, and no opening square bracket behind a digit.
pub open spec fn follows(t: Seq<char>, c: char) -> bool {
    &&& (c == ' ' || c == ')' || c == ']' || c == ',' || c == ';' || c == '\0' || c == '(' || c
        == '[')
    &&& (t.len() > 0 && is_digit(t.last()) ==> c != '[')
}

/// What the short texts of printing consist of.
pub proof fn lemma_literals()
    ensures
        "("@ =~= seq!['('],
        ")"@ =~= seq![')'],
        "["@ =~= seq!['['],
        "]"@ =~= seq![']'],
        ";"@ =~= seq![';'],
        " "@ =~= seq![' '],
        "])"@ =~= seq![']', ')'],
        ", "@ =~= seq![',', ' '],
        "; "@ =~= seq![';', ' '],
        "{ }"@ =~= seq!['{', ' ', '}'],
        "{ "@ =~= seq!['{', ' '],
        " }"@ =~= seq![' ', '}'],
        " = "@ =~= seq![' ', '=', ' '],
        "-"@ =~= seq!['-'],
        "!"@ =~= seq!['!'],
        "if "@ =~= TokenKind::If.symbol() + " "@,
        " else "@ =~= " "@ + TokenKind::Else.symbol() + " "@,
        "while "@ =~= TokenKind::While.symbol() + " "@,
        "fn "@ =~= TokenKind::Function.symbol() + " "@,
        "let "@ =~= TokenKind::Let.symbol() + " "@,
        "var "@ =~= TokenKind::Var.symbol() + " "@,
        "ret "@ =~= TokenKind::Return.symbol() + " "@,
        TokenKind::If.symbol().len() == 2,
        TokenKind::Else.symbol().len() == 4,
        TokenKind::While.symbol().len() == 5,
        TokenKind::Function.symbol().len() == 2,
        TokenKind::Let.symbol().len() == 3,
        TokenKind::Var.symbol().len() == 3,
        TokenKind::Return.symbol().len() == 3,
{
    reveal_strlit("(");
    reveal_strlit(")");
    reveal_strlit("[");
    reveal_strlit("]");
    reveal_strlit(";");
    reveal_strlit(" ");
    reveal_strlit("])");
    reveal_strlit(", ");
    reveal_strlit("; ");
    reveal_strlit("{ }");
    reveal_strlit("{ ");
    reveal_strlit(" }");
    reveal_strlit(" = ");
    reveal_strlit("-");
    reveal_strlit("!");
    reveal_strlit("if ");
    reveal_strlit("if");
    reveal_strlit(" else ");
    reveal_strlit("else");
    reveal_strlit("while ");
    reveal_strlit("while");
    reveal_strlit("fn ");
    reveal_strlit("fn");
    reveal_strlit("let ");
    reveal_strlit("let");
    reveal_strlit("var ");
    reveal_strlit("var");
    reveal_strlit("ret ");
    reveal_strlit("ret");
}

/// A character that printing puts behind an expression is no letter and
/// no digit, and it may follow a number unless it is an opening square
/// bracket.
pub proof fn lemma_follows(t: Seq<char>, c: char)
    requires
        follows(t, c),
    ensures
        !is_word_char(c),
        c != '[' ==> valid_number_suffix(c) && !is_digit(c),
{
}

/// A bracket, a comma or a semicolon that stands at a position is read as
/// the token of its kind.
pub proof fn lemma_read_single(s: Seq<char>, p: int, t: Seq<char>, c: char)
    requires
        spells(s, p, t),
        t =~= seq![c],
        is_single(c),
    ensures
        lexes(s, p, plain(single(c)), p + 1),
{
    lemma_spells_first(s, p, t);
    lemma_lex_single(s, p, c);
}

/// Tokens behind a blank are read as the tokens.
pub proof fn lemma_after_space(s: Seq<char>, p: int, toks: Seq<Tok>, end: int)
    requires
        spells(s, p, " "@),
        toks.len() > 0,
        lexes(s, p + 1, toks, end),
    ensures
        lexes(s, p, toks, end),
{
    lemma_literals();
    lemma_spells_first(s, p, " "@);
    lemma_lexes_space(s, p, toks, end);
}

/// A keyword with a blank behind it is read as the keyword.
pub proof fn lemma_read_keyword(s: Seq<char>, p: int, kind: TokenKind)
    requires
        is_keyword(kind),
        spells(s, p, kind.symbol() + " "@),
    ensures
        lexes(s, p, plain(kind), p + kind.symbol().len()),
        spells(s, p + kind.symbol().len(), " "@),
        kind.symbol().len() >= 1,
        0 <= p + kind.symbol().len() < s.len(),
        s[p + kind.symbol().len()] == ' ',
{
    lemma_literals();
    lemma_keyword(kind);
    lemma_spells_add(s, p, kind.symbol(), " "@);
    lemma_spells_first(s, p + kind.symbol().len(), " "@);
    lemma_lex_keyword(s, p, kind);
}

/// The text of a sound expression starts with a character that is no
/// blank and no equals sign.
pub proof fn lemma_text_first(e: ExprView)
    requires
        sound_expr(e),
    ensures
        expr_text(e).len() >= 1,
        expr_text(e)[0] != '=',
        !is_whitespace(expr_text(e)[0]),
    decreases e,
{
    lemma_literals();
    reveal_strlit("true");
    reveal_strlit("false");
    reveal_strlit("\"");
    reveal_strlit("if");
    reveal_strlit("while");
    reveal_strlit("fn");
    match e {
        ExprView::Identifier(i) => {},
        ExprView::Int(v) => {
            if v < 0 {
                lemma_nat_text((-v) as nat);
            } else {
                lemma_nat_text(v as nat);
                assert(is_digit(int_text(v)[0]));
            }
        },
        ExprView::Bool(_) => {},
        ExprView::Str(x) => {
            assert(expr_text(e)[0] == "\""@[0]);
        },
        ExprView::Array(_) => {
            assert(expr_text(e)[0] == "["@[0]);
        },
        ExprView::Prefix { right, .. } => {
            assert(expr_text(e)[0] == "("@[0]);
        },
        ExprView::Infix { left, right, .. } => {
            assert(expr_text(e)[0] == "("@[0]);
        },
        ExprView::If { .. } => {
            assert(expr_text(e)[0] == "if "@[0]);
        },
        ExprView::While { .. } => {
            assert(expr_text(e)[0] == "while "@[0]);
        },
        ExprView::Function { .. } => {
            assert(expr_text(e)[0] == "fn "@[0]);
        },
        ExprView::Call { function, .. } => {
            lemma_text_first(*function);
            assert(expr_text(e)[0] == expr_text(*function)[0]);
        },
        ExprView::Index { .. } => {
            assert(expr_text(e)[0] == "("@[0]);
        },
    }
}

/// The tokens of a list of expressions, built from the end.
pub open spec fn back_list_tokens(items: Seq<ExprView>) -> Seq<Tok>
    decreases items.len(),
{
    if items.len() == 0 {
        Seq::empty()
    } else if items.len() == 1 {
        expr_tokens(items[0])
    } else {
        back_list_tokens(items.drop_last()) + plain(TokenKind::Comma) + expr_tokens(items.last())
    }
}

/// The tokens of a list are the same, built from either end.
pub proof fn lemma_list_bridge(items: Seq<ExprView>, k: nat)
    requires
        1 <= k <= items.len(),
    ensures
        back_list_tokens(items.take(k as int)) + more_tokens(items, k) =~= list_tokens(items),
    decreases k,
{
    let front = items.take(k as int);
    if k == 1 {
        assert(front[0] == items[0]);
    } else {
        lemma_list_bridge(items, (k - 1) as nat);
        assert(front.drop_last() =~= items.take(k - 1));
        assert(front.last() == items[k - 1]);
        assert(more_tokens(items, (k - 1) as nat) =~= plain(TokenKind::Comma) + expr_tokens(
            items[k - 1],
        ) + more_tokens(items, k));
    }
}

/// The tokens of a list are the same, built from either end.
pub proof fn lemma_list_same(items: Seq<ExprView>)
    ensures
        back_list_tokens(items) =~= list_tokens(items),
{
    if items.len() > 0 {
        lemma_list_bridge(items, items.len());
        assert(items.take(items.len() as int) =~= items);
        assert(more_tokens(items, items.len()) =~= Seq::<Tok>::empty());
    }
}

/// The tokens of a sequence of statements, built from the end.
pub open spec fn back_stmts_tokens(stmts: Seq<StmtView>) -> Seq<Tok>
    decreases stmts.len(),
{
    if stmts.len() == 0 {
        Seq::empty()
    } else if stmts.len() == 1 {
        stmt_tokens(stmts[0])
    } else {
        back_stmts_tokens(stmts.drop_last()) + (if stmts[stmts.len() - 2] is Expression {
            plain(TokenKind::Semicolon)
        } else {
            Seq::empty()
        }) + stmt_tokens(stmts.last())
    }
}

/// The tokens of a sequence of statements are the same, built from either
/// end.
pub proof fn lemma_stmts_bridge(stmts: Seq<StmtView>, k: nat)
    requires
        1 <= k <= stmts.len(),
    ensures
        back_stmts_tokens(stmts.take(k as int)) + separator_tokens(stmts, (k - 1) as nat)
            + stmts_tokens(stmts, k) =~= stmts_tokens(stmts, 0),
    decreases k,
{
    let front = stmts.take(k as int);
    if k == 1 {
        assert(front[0] == stmts[0]);
    } else {
        lemma_stmts_bridge(stmts, (k - 1) as nat);
        assert(front.drop_last() =~= stmts.take(k - 1));
        assert(front.last() == stmts[k - 1]);
        assert(front[front.len() - 2] == stmts[k - 2]);
        assert(stmts_tokens(stmts, (k - 1) as nat) =~= stmt_tokens(stmts[k - 1])
            + separator_tokens(stmts, (k - 1) as nat) + stmts_tokens(stmts, k));
    }
}

/// The tokens of a sequence of statements are the same, built from either
/// end.
pub proof fn lemma_stmts_same(stmts: Seq<StmtView>)
    ensures
        back_stmts_tokens(stmts) =~= stmts_tokens(stmts, 0),
{
    if stmts.len() > 0 {
        lemma_stmts_bridge(stmts, stmts.len());
        assert(stmts.take(stmts.len() as int) =~= stmts);
        assert(stmts_tokens(stmts, stmts.len()) =~= Seq::<Tok>::empty());
    }
}

/// The tokens of a parameter list, built from the end.
pub open spec fn back_params_tokens(ps: Seq<IdentView>) -> Seq<Tok>
    decreases ps.len(),
{
    if ps.len() == 0 {
        Seq::empty()
    } else if ps.len() == 1 {
        param_tokens(ps[0])
    } else {
        back_params_tokens(ps.drop_last()) + plain(TokenKind::Comma) + param_tokens(ps.last())
    }
}

/// The tokens of a parameter list are the same, built from either end.
pub proof fn lemma_params_bridge(ps: Seq<IdentView>, k: nat)
    requires
        1 <= k <= ps.len(),
    ensures
        back_params_tokens(ps.take(k as int)) + more_param_tokens(ps, k) =~= params_tokens(ps),
    decreases k,
{
    let front = ps.take(k as int);
    if k == 1 {
        assert(front[0] == ps[0]);
    } else {
        lemma_params_bridge(ps, (k - 1) as nat);
        assert(front.drop_last() =~= ps.take(k - 1));
        assert(front.last() == ps[k - 1]);
        assert(more_param_tokens(ps, (k - 1) as nat) =~= plain(TokenKind::Comma) + param_tokens(
            ps[k - 1],
        ) + more_param_tokens(ps, k));
    }
}

/// The tokens of a parameter list are the same, built from either end.
pub proof fn lemma_params_same(ps: Seq<IdentView>)
    ensures
        back_params_tokens(ps) =~= params_tokens(ps),
{
    if ps.len() > 0 {
        lemma_params_bridge(ps, ps.len());
        assert(ps.take(ps.len() as int) =~= ps);
        assert(more_param_tokens(ps, ps.len()) =~= Seq::<Tok>::empty());
    }
}


/// The lexer reads the text of a sound expression as the tokens of the
/// expression.
#[verifier::spinoff_prover]
pub proof fn lemma_read_expression(s: Seq<char>, p: int, e: ExprView)
    requires
        sound_expr(e),
        spells(s, p, expr_text(e)),
        follows(expr_text(e), char_at(s, p + expr_text(e).len())),
    ensures
        lexes(s, p, expr_tokens(e), p + expr_text(e).len()),
        expr_tokens(e).len() >= 1,
    decreases e, 5nat,
{
    lemma_first(e);
    let c = char_at(s, p + expr_text(e).len());
    lemma_follows(expr_text(e), c);
    match e {
        ExprView::Identifier(i) => {
            lemma_lex_identifier(s, p, i.value);
            assert(lexes(s, p, expr_tokens(e), p + expr_text(e).len()));
        },
        ExprView::Int(v) => {
            let digits = if v < 0 {
                nat_text((-v) as nat)
            } else {
                nat_text(v as nat)
            };
            if v < 0 {
                lemma_nat_text((-v) as nat);
                assert(int_text(v).last() == digits.last());
            } else {
                lemma_nat_text(v as nat);
            }
            assert(is_digit(digits[digits.len() - 1]));
            assert(is_digit(int_text(v).last()));
            lemma_lex_number(s, p, v);
            assert(lexes(s, p, expr_tokens(e), p + expr_text(e).len()));
        },
        ExprView::Bool(b) => {
            if b {
                lemma_lex_keyword(s, p, TokenKind::True);
            } else {
                lemma_lex_keyword(s, p, TokenKind::False);
            }
            assert(lexes(s, p, expr_tokens(e), p + expr_text(e).len()));
        },
        ExprView::Str(x) => {
            assert(expr_text(e) == "\""@ + x + "\""@);
            lemma_lex_string(s, p, x);
            reveal_strlit("\"");
            assert(lexes(s, p, expr_tokens(e), p + expr_text(e).len()));
        },
        ExprView::Array(_) => {
            lemma_read_array(s, p, e);
        },
        ExprView::Prefix { .. } => {
            lemma_read_prefix(s, p, e);
        },
        ExprView::Infix { .. } => {
            lemma_read_infix(s, p, e);
        },
        ExprView::If { .. } => {
            lemma_read_if(s, p, e);
        },
        ExprView::While { .. } => {
            lemma_read_while(s, p, e);
        },
        ExprView::Function { .. } => {
            lemma_read_function(s, p, e);
        },
        ExprView::Call { .. } => {
            lemma_read_call(s, p, e);
        },
        ExprView::Index { .. } => {
            lemma_read_index(s, p, e);
        },
    }
}

/// The lexer reads the text of the first `k` expressions of a list as
/// their tokens.
#[verifier::spinoff_prover]
pub proof fn lemma_read_list_upto(s: Seq<char>, p: int, items: Seq<ExprView>, k: nat)
    requires
        wf_exprs(items),
        ok_exprs(items),
        k <= items.len(),
        spells(s, p, list_text(items.take(k as int))),
        ({
            let c = char_at(s, p + list_text(items.take(k as int)).len());
            c == ')' || c == ']' || c == ','
        }),
    ensures
        lexes(
            s,
            p,
            back_list_tokens(items.take(k as int)),
            p + list_text(items.take(k as int)).len(),
        ),
    decreases items, k,
{
    let front = items.take(k as int);
    if k == 0 {
    } else if k == 1 {
        assert(front[0] == items[0]);
        lemma_read_expression(s, p, items[0]);
    } else {
        lemma_literals();
        let init = front.drop_last();
        let last = items[k - 1];
        assert(init =~= items.take(k - 1));
        assert(front.last() == last);
        let a = list_text(init);
        let b = expr_text(last);
        assert(list_text(front) == a + ", "@ + b);
        lemma_spells_add(s, p, a + ", "@, b);
        lemma_spells_add(s, p, a, ", "@);
        let q1 = p + a.len();
        assert(s[q1 + 0] == ", "@[0]);
        assert(s[q1 + 1] == ", "@[1]);
        lemma_read_list_upto(s, p, items, (k - 1) as nat);
        lemma_lex_single(s, q1, ',');
        lemma_read_expression(s, q1 + 2, last);
        lemma_lexes_space(s, q1 + 1, expr_tokens(last), q1 + 2 + b.len());
        lemma_lexes_add(s, p, back_list_tokens(init), q1, plain(TokenKind::Comma), q1 + 1);
        lemma_lexes_add(
            s,
            p,
            back_list_tokens(init) + plain(TokenKind::Comma),
            q1 + 1,
            expr_tokens(last),
            q1 + 2 + b.len(),
        );
    }
}

/// The lexer reads the text of a list of sound expressions as the tokens
/// of the list.
#[verifier::spinoff_prover]
pub proof fn lemma_read_list(s: Seq<char>, p: int, items: Seq<ExprView>)
    requires
        wf_exprs(items),
        ok_exprs(items),
        spells(s, p, list_text(items)),
        ({
            let c = char_at(s, p + list_text(items).len());
            c == ')' || c == ']'
        }),
    ensures
        lexes(s, p, list_tokens(items), p + list_text(items).len()),
    decreases items, items.len() + 1,
{
    assert(items.take(items.len() as int) =~= items);
    lemma_read_list_upto(s, p, items, items.len());
    lemma_list_same(items);
}

/// The lexer reads the text of an array literal as its tokens.
#[verifier::spinoff_prover]
pub proof fn lemma_read_array(s: Seq<char>, p: int, e: ExprView)
    requires
        e is Array,
        sound_expr(e),
        spells(s, p, expr_text(e)),
    ensures
        lexes(s, p, expr_tokens(e), p + expr_text(e).len()),
    decreases e, 3nat,
{
    lemma_literals();
    let items = e->Array_0;
    let lt = list_text(items);
    assert(expr_text(e) == "["@ + lt + "]"@);
    lemma_spells_add(s, p, "["@ + lt, "]"@);
    lemma_spells_add(s, p, "["@, lt);
    let q1 = p + 1;
    let q2 = q1 + lt.len();
    lemma_read_single(s, p, "["@, '[');
    lemma_read_single(s, q2, "]"@, ']');
    lemma_spells_first(s, q2, "]"@);
    lemma_read_list(s, q1, items);
    lemma_lexes_add(s, p, plain(TokenKind::LSqBracket), q1, list_tokens(items), q2);
    lemma_lexes_add(
        s,
        p,
        plain(TokenKind::LSqBracket) + list_tokens(items),
        q2,
        plain(TokenKind::RSqBracket),
        q2 + 1,
    );
}

/// The lexer reads the text of a prefix operator with its operand as
/// their tokens.
#[verifier::spinoff_prover]
pub proof fn lemma_read_prefix(s: Seq<char>, p: int, e: ExprView)
    requires
        e is Prefix,
        sound_expr(e),
        spells(s, p, expr_text(e)),
    ensures
        lexes(s, p, expr_tokens(e), p + expr_text(e).len()),
    decreases e, 3nat,
{
    lemma_literals();
    let operator = e->Prefix_operator;
    let right = *(e->Prefix_right->Some_0);
    let kind = prefix_kind(operator);
    let rt = expr_text(right);
    let gap = prefix_gap(rt);
    assert(operand_text(e->Prefix_right) == rt);
    assert(expr_text(e) == "("@ + operator + gap + rt + ")"@);
    lemma_text_first(right);
    lemma_first(right);
    lemma_spells_add(s, p, "("@ + operator + gap + rt, ")"@);
    lemma_spells_add(s, p, "("@ + operator + gap, rt);
    lemma_spells_add(s, p, "("@ + operator, gap);
    lemma_spells_add(s, p, "("@, operator);
    let q1 = p + 1;
    let q2 = q1 + 1;
    let q3 = q2 + gap.len();
    let q4 = q3 + rt.len();
    lemma_read_single(s, p, "("@, '(');
    lemma_read_single(s, q4, ")"@, ')');
    lemma_spells_first(s, q4, ")"@);
    lemma_spells_first(s, q1, operator);
    lemma_spells_first(s, q3, rt);
    if gap.len() > 0 {
        lemma_spells_first(s, q2, gap);
    }
    assert(!is_number(char_at(s, q2)));
    assert(char_at(s, q2) != '=');
    if operator == "-"@ {
        lemma_lex_minus(s, q1);
    } else {
        lemma_lex_bang(s, q1);
    }
    lemma_read_expression(s, q3, right);
    if gap.len() > 0 {
        lemma_lexes_space(s, q2, expr_tokens(right), q4);
    }
    let open = plain(TokenKind::LParen);
    lemma_lexes_add(s, p, open, q1, plain(kind), q2);
    lemma_lexes_add(s, p, open + plain(kind), q2, expr_tokens(right), q4);
    lemma_lexes_add(
        s,
        p,
        open + plain(kind) + expr_tokens(right),
        q4,
        plain(TokenKind::RParen),
        q4 + 1,
    );
}

/// The lexer reads the text of a binary operator with its operands as
/// their tokens.
#[verifier::spinoff_prover]
pub proof fn lemma_read_infix(s: Seq<char>, p: int, e: ExprView)
    requires
        e is Infix,
        sound_expr(e),
        spells(s, p, expr_text(e)),
    ensures
        lexes(s, p, expr_tokens(e), p + expr_text(e).len()),
    decreases e, 3nat,
{
    lemma_literals();
    let operator = e->Infix_operator;
    let left = *(e->Infix_left->Some_0);
    let right = *(e->Infix_right->Some_0);
    let kind = binary_kind(operator);
    lemma_binary_kind(operator);
    let lt = expr_text(left);
    let rt = expr_text(right);
    let sp = " "@;
    assert(operand_text(e->Infix_left) == lt);
    assert(operand_text(e->Infix_right) == rt);
    assert(expr_text(e) == "("@ + lt + sp + operator + sp + rt + ")"@);
    lemma_first(left);
    lemma_first(right);
    lemma_spells_add(s, p, "("@ + lt + sp + operator + sp + rt, ")"@);
    lemma_spells_add(s, p, "("@ + lt + sp + operator + sp, rt);
    lemma_spells_add(s, p, "("@ + lt + sp + operator, sp);
    lemma_spells_add(s, p, "("@ + lt + sp, operator);
    lemma_spells_add(s, p, "("@ + lt, sp);
    lemma_spells_add(s, p, "("@, lt);
    let q1 = p + 1;
    let q2 = q1 + lt.len();
    let q3 = q2 + 1;
    let q4 = q3 + operator.len();
    let q5 = q4 + 1;
    let q6 = q5 + rt.len();
    lemma_read_single(s, p, "("@, '(');
    lemma_read_single(s, q6, ")"@, ')');
    lemma_spells_first(s, q6, ")"@);
    lemma_spells_first(s, q2, sp);
    lemma_spells_first(s, q4, sp);
    // The operator with the blank behind it.
    assert(kind.symbol() == operator);
    assert(spells(s, q3, operator + sp)) by {
        assert forall|i: int| 0 <= i < (operator + sp).len() implies s[q3 + i] == (
        #[trigger] (operator + sp)[i]) by {
            if i < operator.len() {
                assert((operator + sp)[i] == operator[i]);
            } else {
                assert((operator + sp)[i] == sp[i - operator.len()]);
                assert(s[q4 + (i - operator.len())] == sp[i - operator.len()]);
            }
        }
    }
    lemma_lex_binary(s, q3, kind);
    lemma_lexes_space(s, q2, plain(kind), q4);
    lemma_read_expression(s, q1, left);
    lemma_read_expression(s, q5, right);
    lemma_lexes_space(s, q4, expr_tokens(right), q6);
    let open = plain(TokenKind::LParen);
    lemma_lexes_add(s, p, open, q1, expr_tokens(left), q2);
    lemma_lexes_add(s, p, open + expr_tokens(left), q2, plain(kind), q4);
    lemma_lexes_add(s, p, open + expr_tokens(left) + plain(kind), q4, expr_tokens(right), q6);
    lemma_lexes_add(
        s,
        p,
        open + expr_tokens(left) + plain(kind) + expr_tokens(right),
        q6,
        plain(TokenKind::RParen),
        q6 + 1,
    );
}

/// The lexer reads the text of an index expression as its tokens.
#[verifier::spinoff_prover]
pub proof fn lemma_read_index(s: Seq<char>, p: int, e: ExprView)
    requires
        e is Index,
        sound_expr(e),
        spells(s, p, expr_text(e)),
    ensures
        lexes(s, p, expr_tokens(e), p + expr_text(e).len()),
    decreases e, 3nat,
{
    lemma_literals();
    let left = *(e->Index_left);
    let index = *(e->Index_index);
    let lt = expr_text(left);
    let xt = expr_text(index);
    let gap = index_gap(lt);
    assert(expr_text(e) == "("@ + lt + gap + "["@ + xt + "])"@);
    lemma_first(left);
    lemma_first(index);
    lemma_text_first(left);
    lemma_spells_add(s, p, "("@ + lt + gap + "["@ + xt, "])"@);
    lemma_spells_add(s, p, "("@ + lt + gap + "["@, xt);
    lemma_spells_add(s, p, "("@ + lt + gap, "["@);
    lemma_spells_add(s, p, "("@ + lt, gap);
    lemma_spells_add(s, p, "("@, lt);
    let q1 = p + 1;
    let q2 = q1 + lt.len();
    let q3 = q2 + gap.len();
    let q4 = q3 + 1;
    let q5 = q4 + xt.len();
    lemma_read_single(s, p, "("@, '(');
    lemma_read_single(s, q3, "["@, '[');
    lemma_spells_first(s, q3, "["@);
    assert(s[q5 + 0] == "])"@[0]);
    assert(s[q5 + 1] == "])"@[1]);
    lemma_lex_single(s, q5, ']');
    lemma_lex_single(s, q5 + 1, ')');
    if gap.len() > 0 {
        lemma_spells_first(s, q2, gap);
        lemma_lexes_space(s, q2, plain(TokenKind::LSqBracket), q4);
    }
    lemma_read_expression(s, q1, left);
    lemma_read_expression(s, q4, index);
    let open = plain(TokenKind::LParen);
    let sq = plain(TokenKind::LSqBracket);
    let l = expr_tokens(left);
    let x = expr_tokens(index);
    lemma_lexes_add(s, p, open, q1, l, q2);
    lemma_lexes_add(s, p, open + l, q2, sq, q4);
    lemma_lexes_add(s, p, open + l + sq, q4, x, q5);
    lemma_lexes_add(s, p, open + l + sq + x, q5, plain(TokenKind::RSqBracket), q5 + 1);
    lemma_lexes_add(
        s,
        p,
        open + l + sq + x + plain(TokenKind::RSqBracket),
        q5 + 1,
        plain(TokenKind::RParen),
        q5 + 2,
    );
}

/// The lexer reads the text of a call as its tokens.
#[verifier::spinoff_prover]
pub proof fn lemma_read_call(s: Seq<char>, p: int, e: ExprView)
    requires
        e is Call,
        sound_expr(e),
        spells(s, p, expr_text(e)),
    ensures
        lexes(s, p, expr_tokens(e), p + expr_text(e).len()),
    decreases e, 3nat,
{
    lemma_literals();
    let function = *(e->Call_function);
    let arguments = e->Call_arguments;
    let ft = expr_text(function);
    let lt = list_text(arguments);
    assert(expr_text(e) == ft + "("@ + lt + ")"@);
    lemma_first(function);
    lemma_spells_add(s, p, ft + "("@ + lt, ")"@);
    lemma_spells_add(s, p, ft + "("@, lt);
    lemma_spells_add(s, p, ft, "("@);
    let q1 = p + ft.len();
    let q2 = q1 + 1;
    let q3 = q2 + lt.len();
    lemma_read_single(s, q1, "("@, '(');
    lemma_spells_first(s, q1, "("@);
    lemma_read_single(s, q3, ")"@, ')');
    lemma_spells_first(s, q3, ")"@);
    lemma_read_expression(s, p, function);
    lemma_read_list(s, q2, arguments);
    let f = expr_tokens(function);
    let open = plain(TokenKind::LParen);
    lemma_lexes_add(s, p, f, q1, open, q2);
    lemma_lexes_add(s, p, f + open, q2, list_tokens(arguments), q3);
    lemma_lexes_add(
        s,
        p,
        f + open + list_tokens(arguments),
        q3,
        plain(TokenKind::RParen),
        q3 + 1,
    );
}

/// The lexer reads the text of a block as its tokens.
#[verifier::spinoff_prover]
pub proof fn lemma_read_block(s: Seq<char>, p: int, stmts: Seq<StmtView>)
    requires
        sound_stmts(stmts),
        spells(s, p, block_text(stmts)),
    ensures
        lexes(s, p, block_tokens(stmts), p + block_text(stmts).len()),
        block_tokens(stmts).len() >= 2,
    decreases stmts, stmts.len() + 2,
{
    lemma_literals();
    let open = plain(TokenKind::LBrace);
    let close = plain(TokenKind::Rbrace);
    assert(block_tokens(stmts) == open + stmts_tokens(stmts, 0) + close);
    if stmts.len() == 0 {
        assert(s[p + 0] == "{ }"@[0]);
        assert(s[p + 1] == "{ }"@[1]);
        assert(s[p + 2] == "{ }"@[2]);
        lemma_lex_single(s, p, '{');
        lemma_lex_single(s, p + 2, '}');
        lemma_lexes_space(s, p + 1, close, p + 3);
        assert(stmts_tokens(stmts, 0) =~= Seq::<Tok>::empty());
        assert(open + stmts_tokens(stmts, 0) =~= open);
        lemma_lexes_add(s, p, open, p + 1, close, p + 3);
    } else {
        let st = stmts_text(stmts);
        assert(block_text(stmts) == "{ "@ + st + " }"@);
        lemma_spells_add(s, p, "{ "@ + st, " }"@);
        lemma_spells_add(s, p, "{ "@, st);
        let q1 = p + 2;
        let q2 = q1 + st.len();
        assert(s[p + 0] == "{ "@[0]);
        assert(s[p + 1] == "{ "@[1]);
        assert(s[q2 + 0] == " }"@[0]);
        assert(s[q2 + 1] == " }"@[1]);
        lemma_lex_single(s, p, '{');
        lemma_lex_single(s, q2 + 1, '}');
        lemma_lexes_space(s, q2, close, q2 + 2);
        assert(stmts.take(stmts.len() as int) =~= stmts);
        lemma_read_stmts_upto(s, q1, stmts, stmts.len());
        lemma_stmts_same(stmts);
        lemma_stmt_tokens(stmts[0]);
        assert(stmts_tokens(stmts, 0).len() >= 1) by {
            assert(stmts_tokens(stmts, 0) == stmt_tokens(stmts[0]) + separator_tokens(stmts, 0)
                + stmts_tokens(stmts, 1));
        }
        lemma_lexes_space(s, p + 1, stmts_tokens(stmts, 0), q2);
        lemma_lexes_add(s, p, open, p + 1, stmts_tokens(stmts, 0), q2);
        lemma_lexes_add(s, p, open + stmts_tokens(stmts, 0), q2, close, q2 + 2);
    }
}

/// A sound statement has tokens.
pub proof fn lemma_stmt_tokens(st: StmtView)
    requires
        wf_stmt(st),
    ensures
        stmt_tokens(st).len() >= 1,
{
    match st {
        StmtView::Expression { expression, .. } => {
            lemma_first(expression->Some_0);
        },
        _ => {},
    }
}

/// The lexer reads the text of the first `k` statements of a sequence as
/// their tokens.
#[verifier::spinoff_prover]
pub proof fn lemma_read_stmts_upto(s: Seq<char>, p: int, stmts: Seq<StmtView>, k: nat)
    requires
        sound_stmts(stmts),
        k <= stmts.len(),
        spells(s, p, stmts_text(stmts.take(k as int))),
        ({
            let c = char_at(s, p + stmts_text(stmts.take(k as int)).len());
            c == ' ' || c == ';' || c == '\0'
        }),
    ensures
        lexes(
            s,
            p,
            back_stmts_tokens(stmts.take(k as int)),
            p + stmts_text(stmts.take(k as int)).len(),
        ),
    decreases stmts, k,
{
    let front = stmts.take(k as int);
    if k == 0 {
    } else if k == 1 {
        assert(front[0] == stmts[0]);
        lemma_read_statement(s, p, stmts[0]);
    } else {
        lemma_literals();
        let init = front.drop_last();
        let last = stmts[k - 1];
        let prev = stmts[k - 2];
        assert(init =~= stmts.take(k - 1));
        assert(front.last() == last);
        assert(front[front.len() - 2] == prev);
        let a = stmts_text(init);
        let sep = separator(prev);
        let b = stmt_text(last);
        assert(stmts_text(front) == a + sep + b);
        lemma_spells_add(s, p, a + sep, b);
        lemma_spells_add(s, p, a, sep);
        let q1 = p + a.len();
        let q2 = q1 + sep.len();
        lemma_stmt_tokens(last);
        lemma_read_statement(s, q2, last);
        if prev is Expression {
            assert(s[q1 + 0] == "; "@[0]);
            assert(s[q1 + 1] == "; "@[1]);
            lemma_read_stmts_upto(s, p, stmts, (k - 1) as nat);
            lemma_lex_single(s, q1, ';');
            lemma_lexes_space(s, q1 + 1, stmt_tokens(last), q2 + b.len());
            lemma_lexes_add(
                s,
                p,
                back_stmts_tokens(init),
                q1,
                plain(TokenKind::Semicolon),
                q1 + 1,
            );
            lemma_lexes_add(
                s,
                p,
                back_stmts_tokens(init) + plain(TokenKind::Semicolon),
                q1 + 1,
                stmt_tokens(last),
                q2 + b.len(),
            );
        } else {
            assert(s[q1 + 0] == " "@[0]);
            lemma_read_stmts_upto(s, p, stmts, (k - 1) as nat);
            lemma_lexes_space(s, q1, stmt_tokens(last), q2 + b.len());
            assert(back_stmts_tokens(init) + Seq::<Tok>::empty() =~= back_stmts_tokens(init));
            lemma_lexes_add(s, p, back_stmts_tokens(init), q1, stmt_tokens(last), q2 + b.len());
        }
    }
}

/// The lexer reads the text of a type behind a blank as the keyword of
/// the type.
pub proof fn lemma_read_type(s: Seq<char>, p: int, typ: Type)
    requires
        typ.is_declarable(),
        spells(s, p, " "@ + typ.name()),
        !is_word_char(char_at(s, p + 1 + typ.name().len())),
    ensures
        lexes(s, p, plain(type_kind(typ)), p + 1 + typ.name().len()),
{
    lemma_literals();
    let kind = type_kind(typ);
    assert(kind.symbol() == typ.name());
    lemma_spells_add(s, p, " "@, typ.name());
    lemma_lex_keyword(s, p + 1, kind);
    lemma_after_space(s, p, plain(kind), p + 1 + typ.name().len());
}

/// The lexer reads the text of a binding as its tokens.
#[verifier::spinoff_prover]
pub proof fn lemma_read_binding(s: Seq<char>, p: int, st: StmtView)
    requires
        st is Let || st is Var,
        wf_stmt(st),
        ok_stmt(st),
        spells(s, p, stmt_text(st)),
    ensures
        lexes(s, p, stmt_tokens(st), p + stmt_text(st).len()),
    decreases st, 0nat,
{
    lemma_literals();
    let name = if st is Let {
        st->Let_name
    } else {
        st->Var_name
    };
    let typ = if st is Let {
        st->Let_typ
    } else {
        st->Var_typ
    };
    let value = if st is Let {
        st->Let_value
    } else {
        st->Var_value
    };
    let kind = if st is Let {
        TokenKind::Let
    } else {
        TokenKind::Var
    };
    let kw = if st is Let {
        "let "@
    } else {
        "var "@
    };
    let ts = type_suffix(typ);
    let vt = expr_text(value);
    assert(stmt_text(st) == kw + name + ts + " = "@ + vt + ";"@);
    assert(kw =~= kind.symbol() + " "@);
    lemma_first(value);
    lemma_spells_add(s, p, kw + name + ts + " = "@ + vt, ";"@);
    lemma_spells_add(s, p, kw + name + ts + " = "@, vt);
    lemma_spells_add(s, p, kw + name + ts, " = "@);
    lemma_spells_add(s, p, kw + name, ts);
    lemma_spells_add(s, p, kw, name);
    let q1 = p + 4;
    let q2 = q1 + name.len();
    let q3 = q2 + ts.len();
    let q4 = q3 + 3;
    let q5 = q4 + vt.len();
    lemma_read_keyword(s, p, kind);
    assert(s[q3 + 0] == " = "@[0]);
    assert(s[q3 + 1] == " = "@[1]);
    assert(s[q3 + 2] == " = "@[2]);
    // The name, with a blank behind it.
    if ts.len() > 0 {
        lemma_spells_add(s, q2, " "@, typ.name());
        lemma_spells_first(s, q2, " "@);
        lemma_read_type(s, q2, typ);
    }
    assert(char_at(s, q2) == ' ');
    lemma_lex_identifier(s, q1, name);
    lemma_lexes_space(s, p + 3, word(TokenKind::Ident, name), q2);
    // The equals sign between blanks.
    reveal_strlit("=");
    assert(spells(s, q3 + 1, TokenKind::Assign.symbol() + " "@)) by {
        assert forall|i: int| 0 <= i < 2 implies s[q3 + 1 + i] == (#[trigger] (
        TokenKind::Assign.symbol() + " "@)[i]) by {}
    }
    lemma_lex_binary(s, q3 + 1, TokenKind::Assign);
    lemma_lexes_space(s, q3, plain(TokenKind::Assign), q3 + 2);
    // The value and the semicolon.
    lemma_spells_first(s, q5, ";"@);
    lemma_read_expression(s, q4, value);
    lemma_lexes_space(s, q3 + 2, expr_tokens(value), q5);
    lemma_read_single(s, q5, ";"@, ';');
    let k = plain(kind);
    let id = word(TokenKind::Ident, name);
    let ty = type_tokens(typ);
    let eq = plain(TokenKind::Assign);
    lemma_lexes_add(s, p, k, p + 3, id, q2);
    if ts.len() > 0 {
        lemma_lexes_add(s, p, k + id, q2, ty, q3);
    } else {
        assert(k + id + ty =~= k + id);
    }
    lemma_lexes_add(s, p, k + id + ty, q3, eq, q3 + 2);
    lemma_lexes_add(s, p, k + id + ty + eq, q3 + 2, expr_tokens(value), q5);
    lemma_lexes_add(
        s,
        p,
        k + id + ty + eq + expr_tokens(value),
        q5,
        plain(TokenKind::Semicolon),
        q5 + 1,
    );
}

/// The lexer reads the text of a sound statement as the tokens of the
/// statement.
#[verifier::spinoff_prover]
pub proof fn lemma_read_statement(s: Seq<char>, p: int, st: StmtView)
    requires
        wf_stmt(st),
        ok_stmt(st),
        spells(s, p, stmt_text(st)),
        st is Expression ==> ({
            let c = char_at(s, p + stmt_text(st).len());
            c == ' ' || c == ';' || c == '\0'
        }),
    ensures
        lexes(s, p, stmt_tokens(st), p + stmt_text(st).len()),
    decreases st, 1nat,
{
    lemma_literals();
    match st {
        StmtView::Let { .. } => {
            lemma_read_binding(s, p, st);
        },
        StmtView::Var { .. } => {
            lemma_read_binding(s, p, st);
        },
        StmtView::Return(value) => {
            let e = value->Some_0;
            let et = expr_text(e);
            assert(stmt_text(st) == "ret "@ + et + ";"@);
            lemma_first(e);
            lemma_spells_add(s, p, "ret "@ + et, ";"@);
            lemma_spells_add(s, p, "ret "@, et);
            let q1 = p + 4;
            let q2 = q1 + et.len();
            lemma_read_keyword(s, p, TokenKind::Return);
            lemma_spells_first(s, q2, ";"@);
            lemma_read_expression(s, q1, e);
            lemma_lexes_space(s, p + 3, expr_tokens(e), q2);
            lemma_read_single(s, q2, ";"@, ';');
            let k = plain(TokenKind::Return);
            lemma_lexes_add(s, p, k, p + 3, expr_tokens(e), q2);
            lemma_lexes_add(
                s,
                p,
                k + expr_tokens(e),
                q2,
                plain(TokenKind::Semicolon),
                q2 + 1,
            );
        },
        StmtView::Expression { expression, .. } => {
            let e = expression->Some_0;
            assert(expr_opt_text(expression) == expr_text(e));
            lemma_read_expression(s, p, e);
        },
        StmtView::Block(_) => {},
    }
}

/// The text of what follows the first block of a conditional.
pub open spec fn rest_text(e: ExprView) -> Option<Seq<char>> {
    match e->If_el_if {
        Some(other) => Some(expr_text(*other)),
        None => match e->If_alternative {
            Some(stmts) => Some(block_text(stmts)),
            None => None,
        },
    }
}

/// The tokens of what follows the first block of a conditional.
pub open spec fn rest_tokens(e: ExprView) -> Seq<Tok> {
    match e->If_el_if {
        Some(other) => plain(TokenKind::Else) + expr_tokens(*other),
        None => match e->If_alternative {
            Some(other) => plain(TokenKind::Else) + block_tokens(other),
            None => Seq::empty(),
        },
    }
}

/// The lexer reads the text of what follows the first block of a
/// conditional as its tokens.
#[verifier::spinoff_prover]
pub proof fn lemma_read_else(s: Seq<char>, p: int, e: ExprView)
    requires
        e is If,
        sound_expr(e),
        spells(s, p, else_text(rest_text(e))),
    ensures
        lexes(s, p, rest_tokens(e), p + else_text(rest_text(e)).len()),
    decreases e, 2nat,
{
    lemma_literals();
    match rest_text(e) {
        None => {},
        Some(t) => {
            let sym = TokenKind::Else.symbol();
            assert(else_text(rest_text(e)) == " else "@ + t);
            lemma_spells_add(s, p, " else "@, t);
            lemma_spells_add(s, p, " "@ + sym, " "@);
            lemma_spells_add(s, p, " "@, sym);
            lemma_keyword(TokenKind::Else);
            let q1 = p + 1;
            let q2 = q1 + sym.len();
            let q3 = q2 + 1;
            lemma_spells_first(s, q2, " "@);
            lemma_lex_keyword(s, q1, TokenKind::Else);
            lemma_after_space(s, p, plain(TokenKind::Else), q2);
            match e->If_el_if {
                Some(other) => {
                    lemma_first(*other);
                    lemma_read_if(s, q3, *other);
                    lemma_lexes_space(s, q2, expr_tokens(*other), q3 + t.len());
                    lemma_lexes_add(
                        s,
                        p,
                        plain(TokenKind::Else),
                        q2,
                        expr_tokens(*other),
                        q3 + t.len(),
                    );
                },
                None => {
                    let stmts = e->If_alternative->Some_0;
                    lemma_read_block(s, q3, stmts);
                    lemma_lexes_space(s, q2, block_tokens(stmts), q3 + t.len());
                    lemma_lexes_add(
                        s,
                        p,
                        plain(TokenKind::Else),
                        q2,
                        block_tokens(stmts),
                        q3 + t.len(),
                    );
                },
            }
        },
    }
}

/// The lexer reads the text of a conditional as its tokens.
#[verifier::spinoff_prover]
pub proof fn lemma_read_if(s: Seq<char>, p: int, e: ExprView)
    requires
        e is If,
        sound_expr(e),
        spells(s, p, expr_text(e)),
    ensures
        lexes(s, p, expr_tokens(e), p + expr_text(e).len()),
    decreases e, 3nat,
{
    lemma_literals();
    let condition = *(e->If_condition);
    let consequence = e->If_consequence->Some_0;
    let ct = expr_text(condition);
    let bt = block_text(consequence);
    let tail = else_text(rest_text(e));
    assert(block_opt_text(e->If_consequence) == bt);
    assert(expr_text(e) == "if "@ + ct + " "@ + bt + tail);
    lemma_first(condition);
    lemma_spells_add(s, p, "if "@ + ct + " "@ + bt, tail);
    lemma_spells_add(s, p, "if "@ + ct + " "@, bt);
    lemma_spells_add(s, p, "if "@ + ct, " "@);
    lemma_spells_add(s, p, "if "@, ct);
    let q1 = p + 3;
    let q2 = q1 + ct.len();
    let q3 = q2 + 1;
    let q4 = q3 + bt.len();
    lemma_read_keyword(s, p, TokenKind::If);
    lemma_spells_first(s, q2, " "@);
    lemma_read_expression(s, q1, condition);
    lemma_lexes_space(s, p + 2, expr_tokens(condition), q2);
    lemma_read_block(s, q3, consequence);
    lemma_lexes_space(s, q2, block_tokens(consequence), q4);
    lemma_read_else(s, q4, e);
    let k = plain(TokenKind::If);
    let c = expr_tokens(condition);
    let b = block_tokens(consequence);
    assert(expr_tokens(e) == k + c + b + rest_tokens(e));
    lemma_lexes_add(s, p, k, p + 2, c, q2);
    lemma_lexes_add(s, p, k + c, q2, b, q4);
    lemma_lexes_add(s, p, k + c + b, q4, rest_tokens(e), q4 + tail.len());
}

/// The lexer reads the text of a loop as its tokens.
#[verifier::spinoff_prover]
pub proof fn lemma_read_while(s: Seq<char>, p: int, e: ExprView)
    requires
        e is While,
        sound_expr(e),
        spells(s, p, expr_text(e)),
    ensures
        lexes(s, p, expr_tokens(e), p + expr_text(e).len()),
    decreases e, 3nat,
{
    lemma_literals();
    let condition = *(e->While_condition);
    let consequence = e->While_consequence->Some_0;
    let ct = expr_text(condition);
    let bt = block_text(consequence);
    assert(block_opt_text(e->While_consequence) == bt);
    assert(expr_text(e) == "while "@ + ct + " "@ + bt);
    lemma_first(condition);
    lemma_keyword(TokenKind::While);
    reveal_strlit("while");
    lemma_spells_add(s, p, "while "@ + ct + " "@, bt);
    lemma_spells_add(s, p, "while "@ + ct, " "@);
    lemma_spells_add(s, p, "while "@, ct);
    let q1 = p + 6;
    let q2 = q1 + ct.len();
    let q3 = q2 + 1;
    let q4 = q3 + bt.len();
    lemma_read_keyword(s, p, TokenKind::While);
    lemma_spells_first(s, q2, " "@);
    lemma_read_expression(s, q1, condition);
    lemma_lexes_space(s, p + 5, expr_tokens(condition), q2);
    lemma_read_block(s, q3, consequence);
    lemma_lexes_space(s, q2, block_tokens(consequence), q4);
    let k = plain(TokenKind::While);
    let c = expr_tokens(condition);
    let b = block_tokens(consequence);
    lemma_lexes_add(s, p, k, p + 5, c, q2);
    lemma_lexes_add(s, p, k + c, q2, b, q4);
}

/// The lexer reads the text of a parameter as its tokens.
pub proof fn lemma_read_param(s: Seq<char>, p: int, prm: IdentView)
    requires
        wf_param(prm),
        word_ok(prm.value),
        spells(s, p, param_text(prm)),
        ({
            let c = char_at(s, p + param_text(prm).len());
            c == ')' || c == ','
        }),
    ensures
        lexes(s, p, param_tokens(prm), p + param_text(prm).len()),
        param_tokens(prm).len() >= 1,
{
    lemma_literals();
    match prm.typ {
        Some(t) => {
            let ts = type_suffix(t);
            assert(ts == " "@ + t.name());
            lemma_spells_add(s, p, prm.value, ts);
            let q1 = p + prm.value.len();
            lemma_spells_add(s, q1, " "@, t.name());
            lemma_spells_first(s, q1, " "@);
            lemma_lex_identifier(s, p, prm.value);
            lemma_read_type(s, q1, t);
            lemma_lexes_add(
                s,
                p,
                word(TokenKind::Ident, prm.value),
                q1,
                type_tokens(t),
                q1 + ts.len(),
            );
        },
        None => {
            lemma_lex_identifier(s, p, prm.value);
        },
    }
}

/// The lexer reads the text of the first `k` parameters of a list as
/// their tokens.
#[verifier::spinoff_prover]
pub proof fn lemma_read_params_upto(s: Seq<char>, p: int, ps: Seq<IdentView>, k: nat)
    requires
        forall|i: int| 0 <= i < ps.len() ==> wf_param(#[trigger] ps[i]) && word_ok(ps[i].value),
        k <= ps.len(),
        spells(s, p, params_text(ps.take(k as int))),
        ({
            let c = char_at(s, p + params_text(ps.take(k as int)).len());
            c == ')' || c == ','
        }),
    ensures
        lexes(
            s,
            p,
            back_params_tokens(ps.take(k as int)),
            p + params_text(ps.take(k as int)).len(),
        ),
    decreases k,
{
    let front = ps.take(k as int);
    if k == 0 {
    } else if k == 1 {
        assert(front[0] == ps[0]);
        lemma_read_param(s, p, ps[0]);
    } else {
        lemma_literals();
        let init = front.drop_last();
        let last = ps[k - 1];
        assert(init =~= ps.take(k - 1));
        assert(front.last() == last);
        let a = params_text(init);
        let b = param_text(last);
        assert(params_text(front) == a + ", "@ + b);
        lemma_spells_add(s, p, a + ", "@, b);
        lemma_spells_add(s, p, a, ", "@);
        let q1 = p + a.len();
        assert(s[q1 + 0] == ", "@[0]);
        assert(s[q1 + 1] == ", "@[1]);
        lemma_read_params_upto(s, p, ps, (k - 1) as nat);
        lemma_lex_single(s, q1, ',');
        lemma_read_param(s, q1 + 2, last);
        lemma_lexes_space(s, q1 + 1, param_tokens(last), q1 + 2 + b.len());
        lemma_lexes_add(s, p, back_params_tokens(init), q1, plain(TokenKind::Comma), q1 + 1);
        lemma_lexes_add(
            s,
            p,
            back_params_tokens(init) + plain(TokenKind::Comma),
            q1 + 1,
            param_tokens(last),
            q1 + 2 + b.len(),
        );
    }
}

/// The lexer reads the text of a function literal as its tokens.
#[verifier::spinoff_prover]
pub proof fn lemma_read_function(s: Seq<char>, p: int, e: ExprView)
    requires
        e is Function,
        sound_expr(e),
        spells(s, p, expr_text(e)),
    ensures
        lexes(s, p, expr_tokens(e), p + expr_text(e).len()),
    decreases e, 3nat,
{
    lemma_literals();
    let name = e->Function_name;
    let parameters = e->Function_parameters;
    let body = e->Function_body->Some_0;
    let ret_typ = e->Function_ret_typ;
    let nt = name.value;
    let pt = params_text(parameters);
    let rt = ret_text(ret_typ);
    let bt = block_text(body);
    assert(block_opt_text(e->Function_body) == bt);
    assert(expr_text(e) == "fn "@ + nt + "("@ + pt + ")"@ + rt + " "@ + bt);
    lemma_spells_add(s, p, "fn "@ + nt + "("@ + pt + ")"@ + rt + " "@, bt);
    lemma_spells_add(s, p, "fn "@ + nt + "("@ + pt + ")"@ + rt, " "@);
    lemma_spells_add(s, p, "fn "@ + nt + "("@ + pt + ")"@, rt);
    lemma_spells_add(s, p, "fn "@ + nt + "("@ + pt, ")"@);
    lemma_spells_add(s, p, "fn "@ + nt + "("@, pt);
    lemma_spells_add(s, p, "fn "@ + nt, "("@);
    lemma_spells_add(s, p, "fn "@, nt);
    let q1 = p + 3;
    let q2 = q1 + nt.len();
    let q3 = q2 + 1;
    let q4 = q3 + pt.len();
    let q5 = q4 + 1;
    let q6 = q5 + rt.len();
    let q7 = q6 + 1;
    let q8 = q7 + bt.len();
    lemma_read_keyword(s, p, TokenKind::Function);
    lemma_spells_first(s, q2, "("@);
    lemma_lex_identifier(s, q1, nt);
    lemma_lexes_space(s, p + 2, word(TokenKind::Ident, nt), q2);
    lemma_read_single(s, q2, "("@, '(');
    lemma_spells_first(s, q4, ")"@);
    assert(parameters.take(parameters.len() as int) =~= parameters);
    lemma_read_params_upto(s, q3, parameters, parameters.len());
    lemma_params_same(parameters);
    lemma_read_single(s, q4, ")"@, ')');
    lemma_spells_first(s, q6, " "@);
    if rt.len() > 0 {
        lemma_read_type(s, q5, ret_typ);
    }
    lemma_read_block(s, q7, body);
    lemma_lexes_space(s, q6, block_tokens(body), q8);
    let k = plain(TokenKind::Function);
    let id = word(TokenKind::Ident, nt);
    let open = plain(TokenKind::LParen);
    let pl = params_tokens(parameters);
    let close = plain(TokenKind::RParen);
    let r = ret_tokens(ret_typ);
    let b = block_tokens(body);
    assert(expr_tokens(e) == k + id + open + pl + close + r + b);
    lemma_lexes_add(s, p, k, p + 2, id, q2);
    lemma_lexes_add(s, p, k + id, q2, open, q3);
    lemma_lexes_add(s, p, k + id + open, q3, pl, q4);
    lemma_lexes_add(s, p, k + id + open + pl, q4, close, q5);
    if rt.len() > 0 {
        lemma_lexes_add(s, p, k + id + open + pl + close, q5, r, q6);
    } else {
        assert(k + id + open + pl + close + r =~= k + id + open + pl + close);
    }
    lemma_lexes_add(s, p, k + id + open + pl + close + r, q6, b, q8);
}

/// Tokens that the lexer reads up to the end of the input are the tokens
/// of the input.
pub proof fn lemma_lexes_tokens(
    s: Seq<char>,
    file: Seq<char>,
    p: int,
    toks: Seq<Tok>,
)
    requires
        0 <= p <= s.len(),
        lexes(s, p, toks, s.len() as int),
    ensures
        stand_at(tokens_from(s, file, p), 0, toks + plain(TokenKind::EOF)),
    decreases toks.len(),
{
    let ts = tokens_from(s, file, p);
    let all = toks + plain(TokenKind::EOF);
    lemma_token_end(s, p);
    if toks.len() == 0 {
        assert(ts =~= seq![token_at(s, file, p)]);
        assert(all[0] == plain(TokenKind::EOF)[0]);
    } else {
        let rest = tokens_from(s, file, token_end(s, p));
        lemma_lexes_tokens(s, file, token_end(s, p), toks.drop_first());
        assert(ts =~= seq![token_at(s, file, p)] + rest);
        let tail = toks.drop_first() + plain(TokenKind::EOF);
        assert forall|i: int| 0 <= i < all.len() implies kind_at(ts, (0 + i) as nat) == (
        #[trigger] all[i]).kind && text_at(ts, (0 + i) as nat) == all[i].text by {
            if i == 0 {
                assert(all[0] == toks[0]);
            } else {
                if i - 1 < rest.len() {
                    assert(ts[i] == rest[i - 1]);
                }
                assert(kind_at(ts, i as nat) == kind_at(rest, (i - 1) as nat));
                assert(text_at(ts, i as nat) == text_at(rest, (i - 1) as nat));
                assert(all[i] == tail[i - 1]);
                assert(kind_at(rest, (0 + (i - 1)) as nat) == tail[i - 1].kind);
                assert(text_at(rest, (0 + (i - 1)) as nat) == tail[i - 1].text);
            }
        }
    }
}

/// The lexer reads the text of a program as the tokens of the program:
/// for every sequence of statements that the parser gives for tokens of
/// the lexer, the tokens of the text of the statements are the tokens of
/// the statements, and then the input ends.
pub proof fn lemma_read_program(stmts: Seq<StmtView>, file: Seq<char>)
    requires
        sound_stmts(stmts),
    ensures
        stand_at(
            tokens_from(stmts_text(stmts), file, 0),
            0,
            stmts_tokens(stmts, 0) + plain(TokenKind::EOF),
        ),
{
    let s = stmts_text(stmts);
    assert(stmts.take(stmts.len() as int) =~= stmts);
    assert(spells(s, 0, s));
    lemma_read_stmts_upto(s, 0, stmts, stmts.len());
    lemma_stmts_same(stmts);
    lemma_lexes_tokens(s, file, 0, stmts_tokens(stmts, 0));
}

} // verus!
