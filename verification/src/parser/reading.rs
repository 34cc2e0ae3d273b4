//! Reading what was printed: the lexer reads the text of a tree as the
//! tokens of the tree.
//!
//! This module holds the part of the proof that deals with single tokens:
//! what the lexer makes of the spelling of a token when the character
//! behind it is one that printing puts there.

use crate::lexer::token::{keyword_kind, TokenKind};
use crate::lexer::{
    char_at, is_letter, is_number, is_whitespace, lemma_run_end, lemma_token_end, number_at,
    run_end, scan, string_at, token_at, token_end, token_start, tokens_from, valid_number_suffix,
    word_at, CharClass,
};
use crate::parser::unparse::{
    is_binary_kind, plain, string_ok, token_ok, tokens_ok, word, word_ok, Tok,
};
use crate::text::{int_text, is_digit, lemma_nat_text, nat_text};
use vstd::prelude::*;

verus! {

/// Whether the text `t` stands in `s` at position `p`.
pub open spec fn spells(s: Seq<char>, p: int, t: Seq<char>) -> bool {
    &&& 0 <= p
    &&& p + t.len() <= s.len()
    &&& forall|i: int| 0 <= i < t.len() ==> s[p + i] == #[trigger] t[i]
}

/// A text that stands at a position stands there part by part.
pub proof fn lemma_spells_add(s: Seq<char>, p: int, a: Seq<char>, b: Seq<char>)
    requires
        spells(s, p, a + b),
    ensures
        spells(s, p, a),
        spells(s, p + a.len(), b),
{
    assert forall|i: int| 0 <= i < a.len() implies s[p + i] == #[trigger] a[i] by {
        assert((a + b)[i] == a[i]);
    }
    assert forall|i: int| 0 <= i < b.len() implies s[p + a.len() + i] == #[trigger] b[i] by {
        assert((a + b)[a.len() + i] == b[i]);
    }
}

/// The character at the start of a text that stands at a position.
pub proof fn lemma_spells_first(s: Seq<char>, p: int, t: Seq<char>)
    requires
        spells(s, p, t),
        t.len() > 0,
    ensures
        0 <= p < s.len(),
        s[p] == t[0],
        char_at(s, p) == t[0],
{
    assert(s[p + 0] == t[0]);
}

/// Whether the lexer, reading from position `p`, reads the tokens `toks`
/// and then stands at position `end`, just behind the last of them.
pub open spec fn lexes(s: Seq<char>, p: int, toks: Seq<Tok>, end: int) -> bool
    decreases toks.len(),
{
    if toks.len() == 0 {
        p == end
    } else {
        &&& 0 <= p <= s.len()
        &&& scan(s, token_start(s, p)).kind == toks[0].kind
        &&& scan(s, token_start(s, p)).text == toks[0].text
        &&& toks[0].kind != TokenKind::EOF
        &&& lexes(s, token_end(s, p), toks.drop_first(), end)
    }
}

/// Reading one token after the other is reading them all.
pub proof fn lemma_lexes_add(s: Seq<char>, p: int, a: Seq<Tok>, q: int, b: Seq<Tok>, r: int)
    requires
        lexes(s, p, a, q),
        lexes(s, q, b, r),
    ensures
        lexes(s, p, a + b, r),
    decreases a.len(),
{
    if a.len() == 0 {
        assert(a + b =~= b);
    } else {
        lemma_lexes_add(s, token_end(s, p), a.drop_first(), q, b, r);
        assert((a + b).drop_first() =~= a.drop_first() + b);
        assert((a + b)[0] == a[0]);
    }
}

/// One token that the lexer reads at a position.
pub proof fn lemma_lexes_one(s: Seq<char>, p: int, tok: Tok, end: int)
    requires
        0 <= p < s.len(),
        !is_whitespace(s[p]),
        scan(s, p).kind == tok.kind,
        scan(s, p).text == tok.text,
        scan(s, p).next == end,
        tok.kind != TokenKind::EOF,
    ensures
        lexes(s, p, seq![tok], end),
{
    assert(token_start(s, p) == p);
    assert(seq![tok].drop_first() =~= Seq::<Tok>::empty());
    assert(lexes(s, end, seq![tok].drop_first(), end));
}

/// A blank before tokens does not change what the lexer reads.
pub proof fn lemma_lexes_space(s: Seq<char>, p: int, toks: Seq<Tok>, end: int)
    requires
        0 <= p < s.len(),
        s[p] == ' ',
        toks.len() > 0,
        lexes(s, p + 1, toks, end),
    ensures
        lexes(s, p, toks, end),
{
    assert(token_start(s, p) == token_start(s, p + 1));
}

/// The kinds of token that are one character long, whatever follows.
pub open spec fn single(c: char) -> TokenKind {
    if c == '(' {
        TokenKind::LParen
    } else if c == ')' {
        TokenKind::RParen
    } else if c == '[' {
        TokenKind::LSqBracket
    } else if c == ']' {
        TokenKind::RSqBracket
    } else if c == ',' {
        TokenKind::Comma
    } else if c == ';' {
        TokenKind::Semicolon
    } else if c == '{' {
        TokenKind::LBrace
    } else {
        TokenKind::Rbrace
    }
}

/// Whether `c` is a bracket, a comma or a semicolon.
pub open spec fn is_single(c: char) -> bool {
    c == '(' || c == ')' || c == '[' || c == ']' || c == ',' || c == ';' || c == '{' || c == '}'
}

/// A bracket, a comma or a semicolon is read as the token of its kind.
pub proof fn lemma_lex_single(s: Seq<char>, p: int, c: char)
    requires
        0 <= p < s.len(),
        s[p] == c,
        is_single(c),
    ensures
        lexes(s, p, plain(single(c)), p + 1),
{
    lemma_lexes_one(s, p, Tok { kind: single(c), text: None }, p + 1);
}

/// A binary operator that a blank follows is read as the token of its
/// kind.
pub proof fn lemma_lex_binary(s: Seq<char>, p: int, kind: TokenKind)
    requires
        is_binary_kind(kind),
        spells(s, p, kind.symbol() + " "@),
    ensures
        lexes(s, p, plain(kind), p + kind.symbol().len()),
        kind.symbol().len() >= 1,
{
    reveal_strlit("+");
    reveal_strlit("-");
    reveal_strlit("/");
    reveal_strlit("*");
    reveal_strlit("==");
    reveal_strlit("!=");
    reveal_strlit("<");
    reveal_strlit(">");
    reveal_strlit(">=");
    reveal_strlit("<=");
    reveal_strlit("&&");
    reveal_strlit("||");
    reveal_strlit("=");
    reveal_strlit(" ");
    let sym = kind.symbol();
    let n = sym.len() as int;
    lemma_spells_add(s, p, sym, " "@);
    assert(s[p + 0] == sym[0]);
    assert(s[p + n + 0] == " "@[0]);
    if n == 2 {
        assert(s[p + 1] == sym[1]);
    }
    assert(char_at(s, p + 1) == s[p + 1]);
    lemma_lexes_one(s, p, Tok { kind, text: None }, p + n);
}

/// A minus sign before something that is no digit is read as the
/// operator.
pub proof fn lemma_lex_minus(s: Seq<char>, p: int)
    requires
        0 <= p < s.len(),
        s[p] == '-',
        !is_number(char_at(s, p + 1)),
    ensures
        lexes(s, p, plain(TokenKind::Minus), p + 1),
{
    lemma_lexes_one(s, p, Tok { kind: TokenKind::Minus, text: None }, p + 1);
}

/// An exclamation mark before something that is no equals sign is read as
/// the operator.
pub proof fn lemma_lex_bang(s: Seq<char>, p: int)
    requires
        0 <= p < s.len(),
        s[p] == '!',
        char_at(s, p + 1) != '=',
    ensures
        lexes(s, p, plain(TokenKind::Bang), p + 1),
{
    lemma_lexes_one(s, p, Tok { kind: TokenKind::Bang, text: None }, p + 1);
}

/// Whether `c` is a letter or a digit.
pub open spec fn is_word_char(c: char) -> bool {
    is_letter(c) || is_number(c)
}

/// A run of letters and digits takes in all that follow each other.
proof fn lemma_word_run(s: Seq<char>, from: int, end: int)
    requires
        0 <= from <= end <= s.len(),
        forall|i: int| from <= i < end ==> is_word_char(#[trigger] s[i]),
        !is_word_char(char_at(s, end)),
    ensures
        run_end(s, from, CharClass::Word) == end,
    decreases end - from,
{
    if from < end {
        assert(is_word_char(s[from]));
        lemma_word_run(s, from + 1, end);
    }
}

/// Letters and digits behind a letter, with no letter or digit behind
/// them, are read as one word: a keyword if they spell one, and an
/// identifier if not.
pub proof fn lemma_lex_word(s: Seq<char>, p: int, w: Seq<char>)
    requires
        spells(s, p, w),
        w.len() > 0,
        is_letter(w[0]),
        forall|i: int| 0 <= i < w.len() ==> is_word_char(#[trigger] w[i]),
        !is_word_char(char_at(s, p + w.len())),
    ensures
        scan(s, p) == word_at(s, p),
        word_at(s, p).next == p + w.len(),
        !is_whitespace(s[p]),
        match keyword_kind(w) {
            Some(kind) => word_at(s, p).kind == kind && word_at(s, p).text is None,
            None => word_at(s, p).kind == TokenKind::Ident && word_at(s, p).text == Some(w),
        },
{
    let n = w.len() as int;
    assert(s[p + 0] == w[0]);
    assert forall|i: int| p <= i < p + n implies is_word_char(#[trigger] s[i]) by {
        assert(s[p + (i - p)] == w[i - p]);
    }
    lemma_word_run(s, p, p + n);
    assert(s.subrange(p, p + n) =~= w);
}

/// An identifier is read as an identifier that carries its name.
pub proof fn lemma_lex_identifier(s: Seq<char>, p: int, name: Seq<char>)
    requires
        word_ok(name),
        spells(s, p, name),
        !is_word_char(char_at(s, p + name.len())),
    ensures
        lexes(s, p, word(TokenKind::Ident, name), p + name.len()),
{
    lemma_lex_word(s, p, name);
    lemma_lexes_one(s, p, Tok { kind: TokenKind::Ident, text: Some(name) }, p + name.len());
}

/// Whether `kind` is the kind of a keyword.
pub open spec fn is_keyword(kind: TokenKind) -> bool {
    kind == TokenKind::If || kind == TokenKind::Else || kind == TokenKind::Function || kind
        == TokenKind::Let || kind == TokenKind::Var || kind == TokenKind::Return || kind
        == TokenKind::True || kind == TokenKind::False || kind == TokenKind::Int || kind
        == TokenKind::Str || kind == TokenKind::Bool || kind == TokenKind::While || kind
        == TokenKind::Array
}

/// The spelling of a keyword consists of letters, and the keyword that it
/// spells is the keyword.
pub proof fn lemma_keyword(kind: TokenKind)
    requires
        is_keyword(kind),
    ensures
        kind.symbol().len() > 0,
        forall|i: int| 0 <= i < kind.symbol().len() ==> is_letter(#[trigger] kind.symbol()[i]),
        keyword_kind(kind.symbol()) == Some(kind),
{
    reveal_strlit("if");
    reveal_strlit("else");
    reveal_strlit("fn");
    reveal_strlit("let");
    reveal_strlit("var");
    reveal_strlit("ret");
    reveal_strlit("true");
    reveal_strlit("false");
    reveal_strlit("int");
    reveal_strlit("str");
    reveal_strlit("bool");
    reveal_strlit("while");
    reveal_strlit("array");
    let w = kind.symbol();
    assert("if"@[0] == 'i' && "else"@[0] == 'e' && "fn"@[0] == 'f' && "let"@[0] == 'l');
    assert("var"@[0] == 'v' && "ret"@[0] == 'r' && "true"@[0] == 't' && "false"@[0] == 'f');
    assert("int"@[0] == 'i' && "str"@[0] == 's' && "bool"@[0] == 'b' && "while"@[0] == 'w');
    assert("array"@[0] == 'a');
    assert("if"@[1] == 'f' && "int"@[1] == 'n' && "fn"@[1] == 'n' && "false"@[1] == 'a');
    assert forall|i: int| 0 <= i < w.len() implies is_letter(#[trigger] w[i]) by {
        if i == 0 {
        } else if i == 1 {
            assert("else"@[1] == 'l' && "let"@[1] == 'e' && "var"@[1] == 'a' && "ret"@[1] == 'e');
            assert("true"@[1] == 'r' && "str"@[1] == 't' && "bool"@[1] == 'o' && "while"@[1]
                == 'h' && "array"@[1] == 'r');
        } else if i == 2 {
            assert("else"@[2] == 's' && "let"@[2] == 't' && "var"@[2] == 'r' && "ret"@[2] == 't');
            assert("true"@[2] == 'u' && "false"@[2] == 'l' && "int"@[2] == 't' && "str"@[2]
                == 'r' && "bool"@[2] == 'o' && "while"@[2] == 'i' && "array"@[2] == 'r');
        } else if i == 3 {
            assert("else"@[3] == 'e' && "true"@[3] == 'e' && "false"@[3] == 's' && "bool"@[3]
                == 'l' && "while"@[3] == 'l' && "array"@[3] == 'a');
        } else {
            assert("false"@[4] == 'e' && "while"@[4] == 'e' && "array"@[4] == 'y');
        }
    }
}

/// A keyword with no letter or digit behind it is read as the keyword.
pub proof fn lemma_lex_keyword(s: Seq<char>, p: int, kind: TokenKind)
    requires
        is_keyword(kind),
        spells(s, p, kind.symbol()),
        !is_word_char(char_at(s, p + kind.symbol().len())),
    ensures
        lexes(s, p, plain(kind), p + kind.symbol().len()),
{
    lemma_keyword(kind);
    lemma_lex_word(s, p, kind.symbol());
    lemma_lexes_one(s, p, Tok { kind, text: None }, p + kind.symbol().len());
}

/// A run of digits takes in all the digits that follow each other.
proof fn lemma_digit_run(s: Seq<char>, from: int, end: int)
    requires
        0 <= from <= end <= s.len(),
        forall|i: int| from <= i < end ==> is_digit(#[trigger] s[i]),
        !is_digit(char_at(s, end)),
    ensures
        run_end(s, from, CharClass::Digit) == end,
    decreases end - from,
{
    if from < end {
        assert(is_digit(s[from]));
        lemma_digit_run(s, from + 1, end);
    }
}

/// The numeral of an integer, with a character behind it that may follow
/// a number, is read as a numeric literal that carries the numeral.
pub proof fn lemma_lex_number(s: Seq<char>, p: int, v: int)
    requires
        spells(s, p, int_text(v)),
        valid_number_suffix(char_at(s, p + int_text(v).len())),
        !is_digit(char_at(s, p + int_text(v).len())),
    ensures
        lexes(s, p, word(TokenKind::Number, int_text(v)), p + int_text(v).len()),
        int_text(v).len() >= 1,
{
    let text = int_text(v);
    let n = text.len() as int;
    if v < 0 {
        let digits = nat_text((-v) as nat);
        lemma_nat_text((-v) as nat);
        assert(text[0] == '-');
        assert(s[p + 0] == text[0]);
        assert forall|i: int| p + 1 <= i < p + n implies is_digit(#[trigger] s[i]) by {
            assert(s[p + (i - p)] == text[i - p]);
            assert(text[i - p] == digits[i - p - 1]);
        }
        lemma_digit_run(s, p + 1, p + n);
        assert(s[p + 1] == text[1]);
        assert(text[1] == digits[0]);
        assert(is_number(char_at(s, p + 1)));
        assert(s.subrange(p, p + n) =~= text);
        assert(scan(s, p) == number_at(s, p, p + 1));
    } else {
        lemma_nat_text(v as nat);
        assert forall|i: int| p <= i < p + n implies is_digit(#[trigger] s[i]) by {
            assert(s[p + (i - p)] == text[i - p]);
        }
        lemma_digit_run(s, p, p + n);
        assert(s[p + 0] == text[0]);
        assert(is_digit(text[0]));
        assert(s.subrange(p, p + n) =~= text);
        assert(scan(s, p) == number_at(s, p, p));
    }
    lemma_lexes_one(s, p, Tok { kind: TokenKind::Number, text: Some(text) }, p + n);
}

/// A run of characters that are no quotes takes in all that follow each
/// other.
proof fn lemma_quoted_run(s: Seq<char>, from: int, end: int)
    requires
        0 <= from <= end < s.len(),
        forall|i: int| from <= i < end ==> #[trigger] s[i] != '"',
        s[end] == '"',
    ensures
        run_end(s, from, CharClass::Quoted) == end,
    decreases end - from,
{
    if from < end {
        assert(s[from] != '"');
        lemma_quoted_run(s, from + 1, end);
    }
}

/// A text without quotes, between quotes, is read as a string literal
/// that carries the text.
pub proof fn lemma_lex_string(s: Seq<char>, p: int, x: Seq<char>)
    requires
        string_ok(x),
        spells(s, p, "\""@ + x + "\""@),
    ensures
        lexes(s, p, word(TokenKind::String, x), p + x.len() + 2),
{
    reveal_strlit("\"");
    let quote = "\""@;
    let n = x.len() as int;
    lemma_spells_add(s, p, quote + x, quote);
    lemma_spells_add(s, p, quote, x);
    assert(s[p + 0] == quote[0]);
    assert(s[p + 1 + n + 0] == quote[0]);
    assert forall|i: int| p + 1 <= i < p + 1 + n implies #[trigger] s[i] != '"' by {
        assert(s[p + 1 + (i - p - 1)] == x[i - p - 1]);
    }
    lemma_quoted_run(s, p + 1, p + 1 + n);
    assert(s.subrange(p + 1, p + 1 + n) =~= x);
    assert(scan(s, p) == string_at(s, p));
    lemma_lexes_one(s, p, Tok { kind: TokenKind::String, text: Some(x) }, p + n + 2);
}

/// Every token that the lexer reads carries a text that its kind can
/// have: an identifier is letters and digits behind a letter and no
/// keyword, and a string holds no double quote.
pub proof fn lemma_token_ok(s: Seq<char>, file: Seq<char>, pos: int)
    requires
        0 <= pos <= s.len(),
    ensures
        token_ok(token_at(s, file, pos)),
{
    let start = token_start(s, pos);
    lemma_run_end(s, pos, CharClass::Space);
    if start < s.len() {
        let c = s[start];
        lemma_run_end(s, start, CharClass::Word);
        lemma_run_end(s, start + 1, CharClass::Quoted);
        lemma_run_end(s, start, CharClass::Digit);
        lemma_run_end(s, start + 1, CharClass::Digit);
        let token = token_at(s, file, pos);
        if token.kind == TokenKind::Ident {
            let end = run_end(s, start, CharClass::Word);
            let w = s.subrange(start, end);
            assert(scan(s, start) == word_at(s, start));
            assert(is_letter(c));
            assert(end > start);
            assert(w[0] == s[start]);
            assert forall|i: int| 0 <= i < w.len() implies is_letter(#[trigger] w[i]) || is_number(
                w[i],
            ) by {
                assert(w[i] == s[start + i]);
                assert(CharClass::Word.has(s[start + i]));
            }
            assert(word_ok(w));
        }
        if token.kind == TokenKind::String {
            let end = run_end(s, start + 1, CharClass::Quoted);
            let x = s.subrange(start + 1, end);
            assert(scan(s, start) == string_at(s, start));
            assert forall|i: int| 0 <= i < x.len() implies #[trigger] x[i] != '"' by {
                assert(x[i] == s[start + 1 + i]);
                assert(CharClass::Quoted.has(s[start + 1 + i]));
            }
            assert(string_ok(x));
        }
    }
}

/// The tokens that the lexer reads carry texts that their kinds can have.
pub proof fn lemma_tokens_ok(s: Seq<char>, file: Seq<char>, pos: int)
    requires
        0 <= pos <= s.len(),
    ensures
        tokens_ok(tokens_from(s, file, pos)),
    decreases s.len() - pos,
{
    let token = token_at(s, file, pos);
    let all = tokens_from(s, file, pos);
    lemma_token_ok(s, file, pos);
    lemma_token_end(s, pos);
    if token.kind != TokenKind::EOF {
        let rest = tokens_from(s, file, token_end(s, pos));
        lemma_tokens_ok(s, file, token_end(s, pos));
        assert(all =~= seq![token] + rest);
        assert forall|i: int| 0 <= i < all.len() implies token_ok(#[trigger] all[i]) by {
            if i > 0 {
                assert(all[i] == rest[i - 1]);
            }
        }
    } else {
        assert(all =~= seq![token]);
    }
}

} // verus!
