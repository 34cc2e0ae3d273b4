//! Laws of parsing: what holds of every input.

use crate::ast::model::{expr_text, stmt_text, stmts_text, ExprView, StmtView};
use crate::ast::types::Type;
use crate::lexer::token::TokenKind;
use crate::lexer::{
    char_at, is_number, run_end, scan, token_at, token_end, token_start, tokens_from, CharClass,
};
use crate::parser::errors::ParseErrorView;
use crate::parser::grammar;
use crate::parser::grammar::{kind_at, text_at};
use crate::parser::image::lemma_image_program;
use crate::parser::parsed;
use crate::parser::precedence::Precedence;
use crate::parser::reading::lemma_tokens_ok;
use crate::parser::rereading::lemma_read_program;
use crate::parser::roundtrip::lemma_program_round_trip;
use crate::parser::unparse::sound_stmts;
use crate::text::{int_text, is_digit, lemma_nat_text, lemma_parse_int_text, nat_text};
use vstd::prelude::*;

verus! {

/// A run of digits takes in all the digits that follow each other.
proof fn lemma_digit_run(s: Seq<char>, from: int)
    requires
        0 <= from <= s.len(),
        forall|i: int| from <= i < s.len() ==> is_digit(#[trigger] s[i]),
    ensures
        run_end(s, from, CharClass::Digit) == s.len(),
    decreases s.len() - from,
{
    if from < s.len() {
        assert(is_digit(s[from]));
        lemma_digit_run(s, from + 1);
    }
}

/// The text of an integer is read as one numeric literal that carries the
/// text, and nothing follows it.
pub proof fn lemma_integer_tokens(v: int, file: Seq<char>)
    requires
        i64::MIN <= v <= i64::MAX,
    ensures
        ({
            let text = int_text(v);
            let tokens = tokens_from(text, file, 0);
            &&& tokens.len() == 2
            &&& tokens[0].kind == TokenKind::Number
            &&& tokens[0].text == Some(text)
            &&& tokens[1].kind == TokenKind::EOF
        }),
{
    let text = int_text(v);
    let n = text.len() as int;
    if v < 0 {
        let digits = nat_text((-v) as nat);
        lemma_nat_text((-v) as nat);
        assert(text[0] == '-');
        assert forall|i: int| 1 <= i < text.len() implies is_digit(#[trigger] text[i]) by {
            assert(text[i] == digits[i - 1]);
        }
        lemma_digit_run(text, 1);
        assert(is_number(char_at(text, 1)));
    } else {
        lemma_nat_text(v as nat);
        assert forall|i: int| 0 <= i < text.len() implies is_digit(#[trigger] text[i]) by {}
        lemma_digit_run(text, 0);
        assert(is_digit(text[0]));
    }
    assert(token_start(text, 0) == 0);
    assert(char_at(text, n) == '\0');
    assert(text.subrange(0, n) =~= text);
    let first = scan(text, 0);
    assert(first.kind == TokenKind::Number);
    assert(first.text == Some(text));
    assert(first.next == n);
    assert(token_end(text, 0) == n);
    assert(token_start(text, n) == n);
    assert(scan(text, n).kind == TokenKind::EOF);
    let rest = tokens_from(text, file, n);
    assert(rest =~= seq![token_at(text, file, n)]);
    assert(tokens_from(text, file, 0) =~= seq![token_at(text, file, 0)] + rest);
}

/// An integer literal survives printing: the program whose text is the
/// numeral of a 64-bit signed integer parses without a diagnostic to the
/// one statement that is the literal of that integer, and the text of
/// that statement is the numeral again.
#[verifier::spinoff_prover]
pub proof fn lemma_integer_literal_round_trip(v: int, file: Seq<char>)
    requires
        i64::MIN <= v <= i64::MAX,
    ensures
        ({
            let text = int_text(v);
            let program = grammar::parse_program(
                tokens_from(text, file, 0),
                0,
                Seq::empty(),
                Seq::empty(),
            );
            let literal = StmtView::Expression {
                expression: Some(ExprView::Int(v)),
                typ: Type::Unknown,
            };
            &&& program.errors == Seq::<Seq<char>>::empty()
            &&& program.statements == seq![literal]
            &&& stmts_text(program.statements) == text
        }),
{
    let text = int_text(v);
    let ts = tokens_from(text, file, 0);
    lemma_integer_tokens(v, file);
    lemma_parse_int_text(v);
    let none = Seq::<Seq<char>>::empty();
    let literal = StmtView::Expression { expression: Some(ExprView::Int(v)), typ: Type::Unknown };
    assert(kind_at(ts, 0) == TokenKind::Number);
    assert(kind_at(ts, 1) == TokenKind::EOF);
    assert(text_at(ts, 0) == Some(text));
    reveal(grammar::parse_prefix);
    let prefix = grammar::parse_prefix(ts, 0, none);
    assert(prefix == grammar::done(ExprView::Int(v), 0, none));
    reveal(grammar::parse_operators);
    let operators = grammar::parse_operators(ts, 0, none, Precedence::Lowest, ExprView::Int(v));
    assert(operators == grammar::done(ExprView::Int(v), 0, none));
    reveal(grammar::parse_expression);
    let expression = grammar::parse_expression(ts, 0, none, Precedence::Lowest);
    assert(expression == grammar::done(ExprView::Int(v), 0, none));
    reveal(grammar::parse_expression_statement);
    reveal(grammar::parse_statement);
    let statement = grammar::parse_statement(ts, 0, none);
    assert(statement == grammar::done(literal, 0, none));
    let end = grammar::parse_statement(ts, 1, none);
    assert(end.result == Err::<StmtView, ParseErrorView>(ParseErrorView::Eof));
    assert(end.errors == none);
    reveal_with_fuel(grammar::parse_program, 2);
    let program = grammar::parse_program(ts, 0, none, Seq::empty());
    assert(Seq::<StmtView>::empty().push(literal) =~= seq![literal]);
    assert(program.statements == seq![literal]);
    assert(program.errors == none);
    assert(expr_text(ExprView::Int(v)) == text);
    assert(crate::ast::model::expr_opt_text(Some(ExprView::Int(v))) == text);
    assert(stmt_text(literal) == text);
    assert(seq![literal][0] == literal);
    assert(stmts_text(seq![literal]) == text);
}

/// A tree survives printing.  For every source text: the text of the
/// statements that parsing gives for it parses again, without any
/// diagnostic, to the same statements.  So printing and parsing a tree
/// that was parsed gives a tree with the same model, whatever the names
/// of the two files are.
pub proof fn lemma_round_trip(source: Seq<char>, file: Seq<char>, other: Seq<char>)
    ensures
        parsed(stmts_text(parsed(source, file).statements), other).statements == parsed(
            source,
            file,
        ).statements,
        parsed(stmts_text(parsed(source, file).statements), other).errors == Seq::<
            Seq<char>,
        >::empty(),
{
    let tokens = tokens_from(source, file, 0);
    lemma_tokens_ok(source, file, 0);
    let statements = parsed(source, file).statements;
    assert(sound_stmts(Seq::<StmtView>::empty()));
    lemma_image_program(tokens, 0, Seq::empty(), Seq::empty());
    lemma_read_program(statements, other);
    lemma_program_round_trip(tokens_from(stmts_text(statements), other, 0), statements);
}

/// Printing is idempotent on what was parsed: the text of a parsed tree,
/// parsed and printed again, is the same text.
pub proof fn lemma_print_idempotent(source: Seq<char>, file: Seq<char>, other: Seq<char>)
    ensures
        stmts_text(parsed(stmts_text(parsed(source, file).statements), other).statements)
            == stmts_text(parsed(source, file).statements),
{
    lemma_round_trip(source, file, other);
}

} // verus!
