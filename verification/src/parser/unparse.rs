//! From the tree back to tokens.
//!
//! [`stmts_tokens`] gives the tokens that stand for a sequence of
//! statements: the kinds and the texts of the tokens that the lexer reads
//! from the source text of the statements.  [`wf_stmts`] says which trees
//! the parser can give: the trees for which the way back to tokens is
//! defined.

use crate::ast::model::{expr_type, ExprView, IdentView, StmtView};
use crate::ast::types::Type;
use crate::lexer::token::{keyword_kind, TokenKind, TokenView};
use crate::lexer::{is_letter, is_number};
use crate::parser::grammar::{kind_at, text_at};
use crate::text::int_text;
use vstd::prelude::*;

verus! {

/// A token without its position.
pub struct Tok {
    pub kind: TokenKind,
    pub text: Option<Seq<char>>,
}

/// The token of kind `kind` that carries no text.
pub open spec fn plain(kind: TokenKind) -> Seq<Tok> {
    seq![Tok { kind, text: None }]
}

/// The token of kind `kind` that carries `text`.
pub open spec fn word(kind: TokenKind, text: Seq<char>) -> Seq<Tok> {
    seq![Tok { kind, text: Some(text) }]
}

/// Whether the tokens `toks` stand in `ts` from position `pos` on.
pub open spec fn stand_at(ts: Seq<TokenView>, pos: nat, toks: Seq<Tok>) -> bool {
    forall|i: int|
        0 <= i < toks.len() ==> kind_at(ts, (pos + i) as nat) == (#[trigger] toks[i]).kind
            && text_at(ts, (pos + i) as nat) == toks[i].text
}

/// The kind of the prefix operator with the spelling `operator`.
pub open spec fn prefix_kind(operator: Seq<char>) -> TokenKind {
    if operator == "-"@ {
        TokenKind::Minus
    } else {
        TokenKind::Bang
    }
}

/// Whether `operator` is the spelling of a prefix operator.
pub open spec fn is_prefix_operator(operator: Seq<char>) -> bool {
    operator == "-"@ || operator == "!"@
}

/// Whether `kind` is the kind of a binary operator.
pub open spec fn is_binary_kind(kind: TokenKind) -> bool {
    kind == TokenKind::Plus || kind == TokenKind::Minus || kind == TokenKind::Slash || kind
        == TokenKind::Asterisk || kind == TokenKind::Eq || kind == TokenKind::Diff || kind
        == TokenKind::Lt || kind == TokenKind::Gt || kind == TokenKind::Gte || kind
        == TokenKind::Lte || kind == TokenKind::And || kind == TokenKind::Or || kind
        == TokenKind::Assign
}

/// The kind of the binary operator with the spelling `operator`.
pub open spec fn binary_kind(operator: Seq<char>) -> TokenKind {
    if operator == "+"@ {
        TokenKind::Plus
    } else if operator == "-"@ {
        TokenKind::Minus
    } else if operator == "/"@ {
        TokenKind::Slash
    } else if operator == "*"@ {
        TokenKind::Asterisk
    } else if operator == "=="@ {
        TokenKind::Eq
    } else if operator == "!="@ {
        TokenKind::Diff
    } else if operator == "<"@ {
        TokenKind::Lt
    } else if operator == ">"@ {
        TokenKind::Gt
    } else if operator == ">="@ {
        TokenKind::Gte
    } else if operator == "<="@ {
        TokenKind::Lte
    } else if operator == "&&"@ {
        TokenKind::And
    } else if operator == "||"@ {
        TokenKind::Or
    } else {
        TokenKind::Assign
    }
}

/// Whether `operator` is the spelling of a binary operator.
pub open spec fn is_binary_operator(operator: Seq<char>) -> bool {
    operator == "+"@ || operator == "-"@ || operator == "/"@ || operator == "*"@ || operator
        == "=="@ || operator == "!="@ || operator == "<"@ || operator == ">"@ || operator
        == ">="@ || operator == "<="@ || operator == "&&"@ || operator == "||"@ || operator
        == "="@
}

/// The keyword that names the type `typ`, for a type that has one.
pub open spec fn type_kind(typ: Type) -> TokenKind {
    match typ {
        Type::Int => TokenKind::Int,
        Type::Bool => TokenKind::Bool,
        Type::String => TokenKind::Str,
        _ => TokenKind::Array,
    }
}

/// The keyword of the type `typ`, for a type that has one; nothing for any
/// other type.
pub open spec fn type_tokens(typ: Type) -> Seq<Tok> {
    if typ.is_declarable() {
        plain(type_kind(typ))
    } else {
        Seq::empty()
    }
}

/// The keyword of the declared result type of a function.
pub open spec fn ret_tokens(typ: Type) -> Seq<Tok> {
    if typ == Type::Bool || typ == Type::Int || typ == Type::String {
        plain(type_kind(typ))
    } else {
        Seq::empty()
    }
}

/// A parameter: its name, and its type if it has one.
pub open spec fn param_tokens(p: IdentView) -> Seq<Tok> {
    match p.typ {
        Some(t) => word(TokenKind::Ident, p.value) + type_tokens(t),
        None => word(TokenKind::Ident, p.value),
    }
}

/// The parameters from `from` on, each behind a comma.
pub open spec fn more_param_tokens(ps: Seq<IdentView>, from: nat) -> Seq<Tok>
    decreases ps.len() - from,
{
    if from >= ps.len() {
        Seq::empty()
    } else {
        plain(TokenKind::Comma) + param_tokens(ps[from as int]) + more_param_tokens(ps, from + 1)
    }
}

/// The parameters of a function, with commas between them.
pub open spec fn params_tokens(ps: Seq<IdentView>) -> Seq<Tok> {
    if ps.len() == 0 {
        Seq::empty()
    } else {
        param_tokens(ps[0]) + more_param_tokens(ps, 1)
    }
}

/// The tokens of an expression.  Operators come out in brackets, as in
/// the source text of the expression.
pub open spec fn expr_tokens(e: ExprView) -> Seq<Tok>
    decreases e, 0nat,
{
    match e {
        ExprView::Identifier(i) => word(TokenKind::Ident, i.value),
        ExprView::Int(v) => word(TokenKind::Number, int_text(v)),
        ExprView::Bool(b) => if b {
            plain(TokenKind::True)
        } else {
            plain(TokenKind::False)
        },
        ExprView::Str(s) => word(TokenKind::String, s),
        ExprView::Array(items) => plain(TokenKind::LSqBracket) + list_tokens(items)
            + plain(TokenKind::RSqBracket),
        ExprView::Prefix { operator, right, .. } => match right {
            Some(r) => plain(TokenKind::LParen) + plain(prefix_kind(operator)) + expr_tokens(*r)
                + plain(TokenKind::RParen),
            None => Seq::empty(),
        },
        ExprView::Infix { operator, left, right, .. } => match (left, right) {
            (Some(l), Some(r)) => plain(TokenKind::LParen) + expr_tokens(*l) + plain(
                binary_kind(operator),
            ) + expr_tokens(*r) + plain(TokenKind::RParen),
            _ => Seq::empty(),
        },
        ExprView::If { condition, consequence, alternative, el_if } => match consequence {
            Some(stmts) => plain(TokenKind::If) + expr_tokens(*condition) + block_tokens(stmts)
                + (match el_if {
                Some(other) => plain(TokenKind::Else) + expr_tokens(*other),
                None => match alternative {
                    Some(other) => plain(TokenKind::Else) + block_tokens(other),
                    None => Seq::empty(),
                },
            }),
            None => Seq::empty(),
        },
        ExprView::While { condition, consequence } => match consequence {
            Some(stmts) => plain(TokenKind::While) + expr_tokens(*condition) + block_tokens(
                stmts,
            ),
            None => Seq::empty(),
        },
        ExprView::Function { name, parameters, body, ret_typ } => match body {
            Some(stmts) => plain(TokenKind::Function) + word(TokenKind::Ident, name.value)
                + plain(TokenKind::LParen) + params_tokens(parameters) + plain(TokenKind::RParen)
                + ret_tokens(ret_typ) + block_tokens(stmts),
            None => Seq::empty(),
        },
        ExprView::Call { function, arguments } => expr_tokens(*function) + plain(
            TokenKind::LParen,
        ) + list_tokens(arguments) + plain(TokenKind::RParen),
        ExprView::Index { left, index } => plain(TokenKind::LParen) + expr_tokens(*left) + plain(
            TokenKind::LSqBracket,
        ) + expr_tokens(*index) + plain(TokenKind::RSqBracket) + plain(TokenKind::RParen),
    }
}

/// The tokens of the expressions from `from` on, each behind a comma.
pub open spec fn more_tokens(items: Seq<ExprView>, from: nat) -> Seq<Tok>
    decreases items, items.len() - from,
{
    if from >= items.len() {
        Seq::empty()
    } else {
        plain(TokenKind::Comma) + expr_tokens(items[from as int]) + more_tokens(items, from + 1)
    }
}

/// The tokens of a list of expressions, with commas between them.
pub open spec fn list_tokens(items: Seq<ExprView>) -> Seq<Tok>
    decreases items, items.len() + 1,
{
    if items.len() == 0 {
        Seq::empty()
    } else {
        expr_tokens(items[0]) + more_tokens(items, 1)
    }
}

/// The tokens of a statement.  `let`, `var` and `ret` end in a semicolon.
pub open spec fn stmt_tokens(s: StmtView) -> Seq<Tok>
    decreases s, 0nat,
{
    match s {
        StmtView::Let { name, typ, value } => plain(TokenKind::Let) + word(TokenKind::Ident, name)
            + type_tokens(typ) + plain(TokenKind::Assign) + expr_tokens(value) + plain(
            TokenKind::Semicolon,
        ),
        StmtView::Var { name, typ, value } => plain(TokenKind::Var) + word(TokenKind::Ident, name)
            + type_tokens(typ) + plain(TokenKind::Assign) + expr_tokens(value) + plain(
            TokenKind::Semicolon,
        ),
        StmtView::Return(value) => match value {
            Some(e) => plain(TokenKind::Return) + expr_tokens(e) + plain(TokenKind::Semicolon),
            None => Seq::empty(),
        },
        StmtView::Expression { expression, .. } => match expression {
            Some(e) => expr_tokens(e),
            None => Seq::empty(),
        },
        StmtView::Block(_) => Seq::empty(),
    }
}

/// The semicolon that separates an expression statement from the
/// statement behind it.
pub open spec fn separator_tokens(stmts: Seq<StmtView>, at: nat) -> Seq<Tok> {
    if at + 1 < stmts.len() && stmts[at as int] is Expression {
        plain(TokenKind::Semicolon)
    } else {
        Seq::empty()
    }
}

/// The tokens of the statements from `from` on.
pub open spec fn stmts_tokens(stmts: Seq<StmtView>, from: nat) -> Seq<Tok>
    decreases stmts, stmts.len() - from,
{
    if from >= stmts.len() {
        Seq::empty()
    } else {
        stmt_tokens(stmts[from as int]) + separator_tokens(stmts, from) + stmts_tokens(
            stmts,
            from + 1,
        )
    }
}

/// The tokens of a block: its statements between braces.
pub open spec fn block_tokens(stmts: Seq<StmtView>) -> Seq<Tok>
    decreases stmts, stmts.len() + 1,
{
    plain(TokenKind::LBrace) + stmts_tokens(stmts, 0) + plain(TokenKind::Rbrace)
}

/// Whether the parameter is one that the parser can give: without a type,
/// or with a type that a keyword names.
pub open spec fn wf_param(p: IdentView) -> bool {
    match p.typ {
        Some(t) => t.is_declarable(),
        None => true,
    }
}

/// Whether the expression is one that the parser can give.
pub open spec fn wf_expr(e: ExprView) -> bool
    decreases e, 0nat,
{
    match e {
        ExprView::Identifier(i) => i.typ is None,
        ExprView::Int(v) => i64::MIN <= v <= i64::MAX,
        ExprView::Bool(_) => true,
        ExprView::Str(_) => true,
        ExprView::Array(items) => wf_exprs(items),
        ExprView::Prefix { operator, right, typ } => match right {
            Some(r) => is_prefix_operator(operator) && typ == Some(
                prefix_kind(operator).to_type(),
            ) && wf_expr(*r),
            None => false,
        },
        ExprView::Infix { operator, left, right, typ } => match (left, right) {
            (Some(l), Some(r)) => is_binary_operator(operator) && typ == Some(
                binary_kind(operator).to_type(),
            ) && wf_expr(*l) && wf_expr(*r),
            _ => false,
        },
        ExprView::If { condition, consequence, alternative, el_if } => match consequence {
            Some(stmts) => wf_expr(*condition) && wf_stmts(stmts) && (match el_if {
                Some(other) => alternative is None && *other is If && wf_expr(*other),
                None => match alternative {
                    Some(other) => wf_stmts(other),
                    None => true,
                },
            }),
            None => false,
        },
        ExprView::While { condition, consequence } => match consequence {
            Some(stmts) => wf_expr(*condition) && wf_stmts(stmts),
            None => false,
        },
        ExprView::Function { name, parameters, body, ret_typ } => match body {
            Some(stmts) => name.typ is None && (forall|i: int|
                0 <= i < parameters.len() ==> wf_param(#[trigger] parameters[i])) && (ret_typ
                == Type::Unknown || ret_typ == Type::Bool || ret_typ == Type::Int || ret_typ
                == Type::String) && wf_stmts(stmts),
            None => false,
        },
        ExprView::Call { function, arguments } => wf_expr(*function) && wf_exprs(arguments),
        ExprView::Index { left, index } => wf_expr(*left) && wf_expr(*index),
    }
}

/// Whether the expressions are ones that the parser can give.
pub open spec fn wf_exprs(items: Seq<ExprView>) -> bool
    decreases items, 1nat,
{
    forall|i: int| 0 <= i < items.len() ==> wf_expr(#[trigger] items[i])
}

/// Whether the statement is one that the parser can give.
pub open spec fn wf_stmt(s: StmtView) -> bool
    decreases s, 0nat,
{
    match s {
        StmtView::Let { typ, value, .. } => typ == expr_type(value) && wf_expr(value),
        StmtView::Var { typ, value, .. } => typ == expr_type(value) && wf_expr(value),
        StmtView::Return(value) => match value {
            Some(e) => wf_expr(e),
            None => false,
        },
        StmtView::Expression { expression, typ } => match expression {
            Some(e) => typ == Type::Unknown && wf_expr(e),
            None => false,
        },
        StmtView::Block(_) => false,
    }
}

/// Whether the statements are ones that the parser can give.
pub open spec fn wf_stmts(stmts: Seq<StmtView>) -> bool
    decreases stmts, 1nat,
{
    forall|i: int| 0 <= i < stmts.len() ==> wf_stmt(#[trigger] stmts[i])
}

/// Whether `name` can be the text of an identifier: letters and digits
/// behind a letter, and no keyword.
pub open spec fn word_ok(name: Seq<char>) -> bool {
    &&& name.len() > 0
    &&& is_letter(name[0])
    &&& forall|i: int| 0 <= i < name.len() ==> is_letter(#[trigger] name[i]) || is_number(name[i])
    &&& keyword_kind(name) is None
}

/// Whether `s` can be the text of a string literal: it holds no double
/// quote.
pub open spec fn string_ok(s: Seq<char>) -> bool {
    forall|i: int| 0 <= i < s.len() ==> #[trigger] s[i] != '"'
}

/// Whether the token carries a text that its kind can have.
pub open spec fn token_ok(t: TokenView) -> bool {
    &&& t.kind == TokenKind::Ident ==> (t.text matches Some(x) && word_ok(x))
    &&& t.kind == TokenKind::String ==> (t.text matches Some(x) && string_ok(x))
}

/// Whether the tokens carry texts that their kinds can have, as the
/// tokens that the lexer reads do.
pub open spec fn tokens_ok(ts: Seq<TokenView>) -> bool {
    forall|i: int| 0 <= i < ts.len() ==> token_ok(#[trigger] ts[i])
}

/// Whether the names and the strings of the expression are texts that the
/// lexer can read.
pub open spec fn ok_expr(e: ExprView) -> bool
    decreases e, 0nat,
{
    match e {
        ExprView::Identifier(i) => word_ok(i.value),
        ExprView::Int(_) => true,
        ExprView::Bool(_) => true,
        ExprView::Str(s) => string_ok(s),
        ExprView::Array(items) => ok_exprs(items),
        ExprView::Prefix { right, .. } => match right {
            Some(r) => ok_expr(*r),
            None => true,
        },
        ExprView::Infix { left, right, .. } => match (left, right) {
            (Some(l), Some(r)) => ok_expr(*l) && ok_expr(*r),
            _ => true,
        },
        ExprView::If { condition, consequence, alternative, el_if } => ok_expr(*condition) && (
        match consequence {
            Some(stmts) => ok_stmts(stmts),
            None => true,
        }) && (match alternative {
            Some(stmts) => ok_stmts(stmts),
            None => true,
        }) && (match el_if {
            Some(other) => ok_expr(*other),
            None => true,
        }),
        ExprView::While { condition, consequence } => ok_expr(*condition) && (match consequence {
            Some(stmts) => ok_stmts(stmts),
            None => true,
        }),
        ExprView::Function { name, parameters, body, .. } => word_ok(name.value) && (forall|
            i: int,
        |
            0 <= i < parameters.len() ==> word_ok((#[trigger] parameters[i]).value)) && (
        match body {
            Some(stmts) => ok_stmts(stmts),
            None => true,
        }),
        ExprView::Call { function, arguments } => ok_expr(*function) && ok_exprs(arguments),
        ExprView::Index { left, index } => ok_expr(*left) && ok_expr(*index),
    }
}

/// Whether the names and the strings of the expressions are texts that the
/// lexer can read.
pub open spec fn ok_exprs(items: Seq<ExprView>) -> bool
    decreases items, 1nat,
{
    forall|i: int| 0 <= i < items.len() ==> ok_expr(#[trigger] items[i])
}

/// Whether the names and the strings of the statement are texts that the
/// lexer can read.
pub open spec fn ok_stmt(s: StmtView) -> bool
    decreases s, 0nat,
{
    match s {
        StmtView::Let { name, value, .. } => word_ok(name) && ok_expr(value),
        StmtView::Var { name, value, .. } => word_ok(name) && ok_expr(value),
        StmtView::Return(value) => match value {
            Some(e) => ok_expr(e),
            None => true,
        },
        StmtView::Expression { expression, .. } => match expression {
            Some(e) => ok_expr(e),
            None => true,
        },
        StmtView::Block(stmts) => ok_stmts(stmts),
    }
}

/// Whether the names and the strings of the statements are texts that the
/// lexer can read.
pub open spec fn ok_stmts(stmts: Seq<StmtView>) -> bool
    decreases stmts, 1nat,
{
    forall|i: int| 0 <= i < stmts.len() ==> ok_stmt(#[trigger] stmts[i])
}

/// Whether the expression is one that the parser gives for tokens of the
/// lexer.
pub open spec fn sound_expr(e: ExprView) -> bool {
    wf_expr(e) && ok_expr(e)
}

/// Whether the statements are ones that the parser gives for tokens of
/// the lexer.
pub open spec fn sound_stmts(stmts: Seq<StmtView>) -> bool {
    wf_stmts(stmts) && ok_stmts(stmts)
}

} // verus!
