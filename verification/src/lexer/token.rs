//! The token vocabulary and the source positions that diagnostics quote.

use crate::ast::types::Type;
use crate::text::{nat_text, nat_to_string};
use vstd::prelude::*;

verus! {

/// Where a token starts: the offset within its line, counted from zero, the
/// line, counted from one, and the name of the source file.  Positions serve
/// diagnostics only and never change what a program means.
#[derive(Debug)]
pub struct Location {
    pub position: usize,
    pub line: usize,
    pub filename: String,
}

/// The model of a [`Location`].
pub struct LocationView {
    pub position: nat,
    pub line: nat,
    pub filename: Seq<char>,
}

impl View for Location {
    type V = LocationView;

    open spec fn view(&self) -> LocationView {
        LocationView {
            position: self.position as nat,
            line: self.line as nat,
            filename: self.filename@,
        }
    }
}

impl Location {
    pub fn new(position: usize, line: usize, filename: String) -> (l: Self)
        ensures
            l.position == position,
            l.line == line,
            l.filename == filename,
    {
        Self { position, line, filename }
    }
}

impl Clone for Location {
    fn clone(&self) -> (l: Self)
        ensures
            l == *self,
    {
        Self { position: self.position, line: self.line, filename: self.filename.clone() }
    }
}

impl LocationView {
    /// The location as diagnostics print it: file, line and offset, with
    /// colons between them.
    pub open spec fn text(self) -> Seq<char> {
        self.filename + ":"@ + nat_text(self.line) + ":"@ + nat_text(self.position)
    }
}

/// What a token is, apart from its text and its position.
#[derive(Debug, Clone, Copy, PartialEq, Eq, Structural)]
pub enum TokenKind {
    Illegal,
    EOF,
    Ident,
    Number,
    Comma,
    Semicolon,
    LParen,
    RParen,
    LSqBracket,
    RSqBracket,
    LBrace,
    Rbrace,
    String,
    Function,
    Let,
    Var,
    Bool,
    True,
    False,
    While,
    If,
    Else,
    Return,
    Int,
    Str,
    Bang,
    Asterisk,
    Plus,
    Minus,
    Slash,
    Assign,
    Lt,
    Gt,
    Eq,
    Lte,
    Gte,
    Diff,
    And,
    Or,
    ShiftLeft,
    ShiftRight,
    BitWiseAnd,
    BitWiseOr,
    Xor,
    Array,
    Mod,
}

/// One lexical unit of the source text.  Identifiers, numbers, strings and
/// illegal input carry their text; every token may carry its position.  Two
/// tokens compare equal when they are of the same kind.
#[derive(Debug)]
pub enum Token {
    Illegal(Option<String>, Option<Location>),
    EOF(Option<Location>),
    Ident(Option<String>, Option<Location>),
    Number(Option<String>, Option<Location>),
    Comma(Option<Location>),
    Semicolon(Option<Location>),
    LParen(Option<Location>),
    RParen(Option<Location>),
    LSqBracket(Option<Location>),
    RSqBracket(Option<Location>),
    LBrace(Option<Location>),
    Rbrace(Option<Location>),
    String(Option<String>, Option<Location>),
    Function(Option<Location>),
    Let(Option<Location>),
    Var(Option<Location>),
    Bool(Option<Location>),
    True(Option<Location>),
    False(Option<Location>),
    While(Option<Location>),
    If(Option<Location>),
    Else(Option<Location>),
    Return(Option<Location>),
    Int(Option<Location>),
    Str(Option<Location>),
    Bang(Option<Location>),
    Asterisk(Option<Location>),
    Plus(Option<Location>),
    Minus(Option<Location>),
    Slash(Option<Location>),
    Assign(Option<Location>),
    Lt(Option<Location>),
    Gt(Option<Location>),
    Eq(Option<Location>),
    Lte(Option<Location>),
    Gte(Option<Location>),
    Diff(Option<Location>),
    And(Option<Location>),
    Or(Option<Location>),
    ShiftLeft(Option<Location>),
    ShiftRight(Option<Location>),
    BitWiseAnd(Option<Location>),
    BitWiseOr(Option<Location>),
    Xor(Option<Location>),
    Array(Option<Location>),
    Mod(Option<Location>),
}

/// The model of a [`Token`]: its kind, its text where it carries one, and its
/// position where it is known.
pub struct TokenView {
    pub kind: TokenKind,
    pub text: Option<Seq<char>>,
    pub location: Option<LocationView>,
}

/// The model of an optional string.
pub open spec fn text_view(text: Option<String>) -> Option<Seq<char>> {
    match text {
        Some(t) => Some(t@),
        None => None,
    }
}

/// The model of an optional location.
pub open spec fn location_view(location: Option<Location>) -> Option<LocationView> {
    match location {
        Some(l) => Some(l@),
        None => None,
    }
}

impl View for Token {
    type V = TokenView;

    open spec fn view(&self) -> TokenView {
        match self {
            Token::Illegal(t, l) => TokenView { kind: TokenKind::Illegal, text: text_view(*t), location: location_view(*l) },
            Token::EOF(l) => TokenView { kind: TokenKind::EOF, text: None, location: location_view(*l) },
            Token::Ident(t, l) => TokenView { kind: TokenKind::Ident, text: text_view(*t), location: location_view(*l) },
            Token::Number(t, l) => TokenView { kind: TokenKind::Number, text: text_view(*t), location: location_view(*l) },
            Token::Comma(l) => TokenView { kind: TokenKind::Comma, text: None, location: location_view(*l) },
            Token::Semicolon(l) => TokenView { kind: TokenKind::Semicolon, text: None, location: location_view(*l) },
            Token::LParen(l) => TokenView { kind: TokenKind::LParen, text: None, location: location_view(*l) },
            Token::RParen(l) => TokenView { kind: TokenKind::RParen, text: None, location: location_view(*l) },
            Token::LSqBracket(l) => TokenView { kind: TokenKind::LSqBracket, text: None, location: location_view(*l) },
            Token::RSqBracket(l) => TokenView { kind: TokenKind::RSqBracket, text: None, location: location_view(*l) },
            Token::LBrace(l) => TokenView { kind: TokenKind::LBrace, text: None, location: location_view(*l) },
            Token::Rbrace(l) => TokenView { kind: TokenKind::Rbrace, text: None, location: location_view(*l) },
            Token::String(t, l) => TokenView { kind: TokenKind::String, text: text_view(*t), location: location_view(*l) },
            Token::Function(l) => TokenView { kind: TokenKind::Function, text: None, location: location_view(*l) },
            Token::Let(l) => TokenView { kind: TokenKind::Let, text: None, location: location_view(*l) },
            Token::Var(l) => TokenView { kind: TokenKind::Var, text: None, location: location_view(*l) },
            Token::Bool(l) => TokenView { kind: TokenKind::Bool, text: None, location: location_view(*l) },
            Token::True(l) => TokenView { kind: TokenKind::True, text: None, location: location_view(*l) },
            Token::False(l) => TokenView { kind: TokenKind::False, text: None, location: location_view(*l) },
            Token::While(l) => TokenView { kind: TokenKind::While, text: None, location: location_view(*l) },
            Token::If(l) => TokenView { kind: TokenKind::If, text: None, location: location_view(*l) },
            Token::Else(l) => TokenView { kind: TokenKind::Else, text: None, location: location_view(*l) },
            Token::Return(l) => TokenView { kind: TokenKind::Return, text: None, location: location_view(*l) },
            Token::Int(l) => TokenView { kind: TokenKind::Int, text: None, location: location_view(*l) },
            Token::Str(l) => TokenView { kind: TokenKind::Str, text: None, location: location_view(*l) },
            Token::Bang(l) => TokenView { kind: TokenKind::Bang, text: None, location: location_view(*l) },
            Token::Asterisk(l) => TokenView { kind: TokenKind::Asterisk, text: None, location: location_view(*l) },
            Token::Plus(l) => TokenView { kind: TokenKind::Plus, text: None, location: location_view(*l) },
            Token::Minus(l) => TokenView { kind: TokenKind::Minus, text: None, location: location_view(*l) },
            Token::Slash(l) => TokenView { kind: TokenKind::Slash, text: None, location: location_view(*l) },
            Token::Assign(l) => TokenView { kind: TokenKind::Assign, text: None, location: location_view(*l) },
            Token::Lt(l) => TokenView { kind: TokenKind::Lt, text: None, location: location_view(*l) },
            Token::Gt(l) => TokenView { kind: TokenKind::Gt, text: None, location: location_view(*l) },
            Token::Eq(l) => TokenView { kind: TokenKind::Eq, text: None, location: location_view(*l) },
            Token::Lte(l) => TokenView { kind: TokenKind::Lte, text: None, location: location_view(*l) },
            Token::Gte(l) => TokenView { kind: TokenKind::Gte, text: None, location: location_view(*l) },
            Token::Diff(l) => TokenView { kind: TokenKind::Diff, text: None, location: location_view(*l) },
            Token::And(l) => TokenView { kind: TokenKind::And, text: None, location: location_view(*l) },
            Token::Or(l) => TokenView { kind: TokenKind::Or, text: None, location: location_view(*l) },
            Token::ShiftLeft(l) => TokenView { kind: TokenKind::ShiftLeft, text: None, location: location_view(*l) },
            Token::ShiftRight(l) => TokenView { kind: TokenKind::ShiftRight, text: None, location: location_view(*l) },
            Token::BitWiseAnd(l) => TokenView { kind: TokenKind::BitWiseAnd, text: None, location: location_view(*l) },
            Token::BitWiseOr(l) => TokenView { kind: TokenKind::BitWiseOr, text: None, location: location_view(*l) },
            Token::Xor(l) => TokenView { kind: TokenKind::Xor, text: None, location: location_view(*l) },
            Token::Array(l) => TokenView { kind: TokenKind::Array, text: None, location: location_view(*l) },
            Token::Mod(l) => TokenView { kind: TokenKind::Mod, text: None, location: location_view(*l) },
        }
    }
}

/// The models of a sequence of tokens.
pub open spec fn token_views(tokens: Seq<Token>) -> Seq<TokenView> {
    tokens.map_values(|t: Token| t@)
}

impl TokenKind {
    /// Whether tokens of this kind carry text of their own.
    pub open spec fn carries_text(self) -> bool {
        self == TokenKind::Illegal || self == TokenKind::Ident || self == TokenKind::Number
            || self == TokenKind::String
    }

    /// The fixed spelling of the kind: the operator, the delimiter or the
    /// keyword itself, and a descriptive word for the kinds that carry text.
    pub open spec fn symbol(self) -> Seq<char> {
        match self {
            TokenKind::Illegal => "illegal"@,
            TokenKind::EOF => "EOF"@,
            TokenKind::Ident => "identifier"@,
            TokenKind::Number => "number"@,
            TokenKind::Comma => ","@,
            TokenKind::Semicolon => ";"@,
            TokenKind::LParen => "("@,
            TokenKind::RParen => ")"@,
            TokenKind::LSqBracket => "["@,
            TokenKind::RSqBracket => "]"@,
            TokenKind::LBrace => "{"@,
            TokenKind::Rbrace => "}"@,
            TokenKind::String => "String"@,
            TokenKind::Function => "fn"@,
            TokenKind::Let => "let"@,
            TokenKind::Var => "var"@,
            TokenKind::Bool => "bool"@,
            TokenKind::True => "true"@,
            TokenKind::False => "false"@,
            TokenKind::While => "while"@,
            TokenKind::If => "if"@,
            TokenKind::Else => "else"@,
            TokenKind::Return => "ret"@,
            TokenKind::Int => "int"@,
            TokenKind::Str => "str"@,
            TokenKind::Bang => "!"@,
            TokenKind::Asterisk => "*"@,
            TokenKind::Plus => "+"@,
            TokenKind::Minus => "-"@,
            TokenKind::Slash => "/"@,
            TokenKind::Assign => "="@,
            TokenKind::Lt => "<"@,
            TokenKind::Gt => ">"@,
            TokenKind::Eq => "=="@,
            TokenKind::Lte => "<="@,
            TokenKind::Gte => ">="@,
            TokenKind::Diff => "!="@,
            TokenKind::And => "&&"@,
            TokenKind::Or => "||"@,
            TokenKind::ShiftLeft => "<<"@,
            TokenKind::ShiftRight => ">>"@,
            TokenKind::BitWiseAnd => "&"@,
            TokenKind::BitWiseOr => "|"@,
            TokenKind::Xor => "^"@,
            TokenKind::Array => "array"@,
            TokenKind::Mod => "%"@,
        }
    }

    /// Whether the kind is an operator with a spelling that expressions keep.
    pub open spec fn is_operator(self) -> bool {
        match self {
            TokenKind::Minus | TokenKind::Plus | TokenKind::Bang | TokenKind::Eq | TokenKind::Diff | TokenKind::Gt | TokenKind::Lt | TokenKind::Gte | TokenKind::Lte | TokenKind::Slash | TokenKind::Asterisk | TokenKind::Or | TokenKind::And | TokenKind::Assign | TokenKind::Array | TokenKind::ShiftLeft | TokenKind::ShiftRight | TokenKind::Xor | TokenKind::BitWiseAnd | TokenKind::BitWiseOr | TokenKind::Mod => true,
            _ => false,
        }
    }

    /// The operator's spelling, or `unknown` for a kind that is no operator.
    pub open spec fn literal(self) -> Seq<char> {
        if self.is_operator() {
            self.symbol()
        } else {
            "unknown"@
        }
    }

    /// The type that the kind stands for: a type keyword names its type, an
    /// operator yields the type of its result.
    pub open spec fn to_type(self) -> Type {
        match self {
            TokenKind::Int
            | TokenKind::Mod
            | TokenKind::Plus
            | TokenKind::Minus
            | TokenKind::BitWiseOr
            | TokenKind::ShiftLeft
            | TokenKind::BitWiseAnd
            | TokenKind::ShiftRight
            | TokenKind::Xor => Type::Int,
            TokenKind::Array => Type::Array,
            TokenKind::Bool
            | TokenKind::Lt
            | TokenKind::Gt
            | TokenKind::Lte
            | TokenKind::Gte
            | TokenKind::Diff
            | TokenKind::And
            | TokenKind::Or
            | TokenKind::Eq => Type::Bool,
            TokenKind::Str => Type::String,
            TokenKind::Function => Type::Function,
            _ => Type::Unknown,
        }
    }

    /// The fixed spelling of the kind as a static string.
    pub fn as_str(&self) -> (s: &'static str)
        ensures
            s@ == self.symbol(),
    {
        match self {
            TokenKind::Illegal => "illegal",
            TokenKind::EOF => "EOF",
            TokenKind::Ident => "identifier",
            TokenKind::Number => "number",
            TokenKind::Comma => ",",
            TokenKind::Semicolon => ";",
            TokenKind::LParen => "(",
            TokenKind::RParen => ")",
            TokenKind::LSqBracket => "[",
            TokenKind::RSqBracket => "]",
            TokenKind::LBrace => "{",
            TokenKind::Rbrace => "}",
            TokenKind::String => "String",
            TokenKind::Function => "fn",
            TokenKind::Let => "let",
            TokenKind::Var => "var",
            TokenKind::Bool => "bool",
            TokenKind::True => "true",
            TokenKind::False => "false",
            TokenKind::While => "while",
            TokenKind::If => "if",
            TokenKind::Else => "else",
            TokenKind::Return => "ret",
            TokenKind::Int => "int",
            TokenKind::Str => "str",
            TokenKind::Bang => "!",
            TokenKind::Asterisk => "*",
            TokenKind::Plus => "+",
            TokenKind::Minus => "-",
            TokenKind::Slash => "/",
            TokenKind::Assign => "=",
            TokenKind::Lt => "<",
            TokenKind::Gt => ">",
            TokenKind::Eq => "==",
            TokenKind::Lte => "<=",
            TokenKind::Gte => ">=",
            TokenKind::Diff => "!=",
            TokenKind::And => "&&",
            TokenKind::Or => "||",
            TokenKind::ShiftLeft => "<<",
            TokenKind::ShiftRight => ">>",
            TokenKind::BitWiseAnd => "&",
            TokenKind::BitWiseOr => "|",
            TokenKind::Xor => "^",
            TokenKind::Array => "array",
            TokenKind::Mod => "%",
        }
    }

    /// The type that the kind stands for.
    pub fn type_of(&self) -> (t: Type)
        ensures
            t == self.to_type(),
    {
        match self {
            TokenKind::Int
            | TokenKind::Mod
            | TokenKind::Plus
            | TokenKind::Minus
            | TokenKind::BitWiseOr
            | TokenKind::ShiftLeft
            | TokenKind::BitWiseAnd
            | TokenKind::ShiftRight
            | TokenKind::Xor => Type::Int,
            TokenKind::Array => Type::Array,
            TokenKind::Bool
            | TokenKind::Lt
            | TokenKind::Gt
            | TokenKind::Lte
            | TokenKind::Gte
            | TokenKind::Diff
            | TokenKind::And
            | TokenKind::Or
            | TokenKind::Eq => Type::Bool,
            TokenKind::Str => Type::String,
            TokenKind::Function => Type::Function,
            _ => Type::Unknown,
        }
    }

    /// Tells whether the kind is an operator.
    pub fn operator(&self) -> (b: bool)
        ensures
            b == self.is_operator(),
    {
        match self {
            TokenKind::Minus | TokenKind::Plus | TokenKind::Bang | TokenKind::Eq | TokenKind::Diff | TokenKind::Gt | TokenKind::Lt | TokenKind::Gte | TokenKind::Lte | TokenKind::Slash | TokenKind::Asterisk | TokenKind::Or | TokenKind::And | TokenKind::Assign | TokenKind::Array | TokenKind::ShiftLeft | TokenKind::ShiftRight | TokenKind::Xor | TokenKind::BitWiseAnd | TokenKind::BitWiseOr | TokenKind::Mod => true,
            _ => false,
        }
    }
}

/// The keyword that `text` spells, if it spells one.
pub open spec fn keyword_kind(text: Seq<char>) -> Option<TokenKind> {
    if text == "if"@ {
        Some(TokenKind::If)
    } else if text == "else"@ {
        Some(TokenKind::Else)
    } else if text == "fn"@ {
        Some(TokenKind::Function)
    } else if text == "let"@ {
        Some(TokenKind::Let)
    } else if text == "var"@ {
        Some(TokenKind::Var)
    } else if text == "ret"@ {
        Some(TokenKind::Return)
    } else if text == "true"@ {
        Some(TokenKind::True)
    } else if text == "false"@ {
        Some(TokenKind::False)
    } else if text == "int"@ {
        Some(TokenKind::Int)
    } else if text == "str"@ {
        Some(TokenKind::Str)
    } else if text == "bool"@ {
        Some(TokenKind::Bool)
    } else if text == "while"@ {
        Some(TokenKind::While)
    } else if text == "array"@ {
        Some(TokenKind::Array)
    } else {
        None
    }
}

/// Looks `text` up in the keyword table.
pub fn keyword(text: &str) -> (k: Option<TokenKind>)
    ensures
        k == keyword_kind(text@),
{
    if text.eq("if") {
        Some(TokenKind::If)
    } else if text.eq("else") {
        Some(TokenKind::Else)
    } else if text.eq("fn") {
        Some(TokenKind::Function)
    } else if text.eq("let") {
        Some(TokenKind::Let)
    } else if text.eq("var") {
        Some(TokenKind::Var)
    } else if text.eq("ret") {
        Some(TokenKind::Return)
    } else if text.eq("true") {
        Some(TokenKind::True)
    } else if text.eq("false") {
        Some(TokenKind::False)
    } else if text.eq("int") {
        Some(TokenKind::Int)
    } else if text.eq("str") {
        Some(TokenKind::Str)
    } else if text.eq("bool") {
        Some(TokenKind::Bool)
    } else if text.eq("while") {
        Some(TokenKind::While)
    } else if text.eq("array") {
        Some(TokenKind::Array)
    } else {
        None
    }
}

impl TokenView {
    /// How a message names the token: its spelling, and for a token that
    /// carries text that text in brackets after the descriptive word.
    pub open spec fn label(self) -> Seq<char> {
        match self.text {
            Some(t) => self.kind.symbol() + " ("@ + t + ")"@,
            None => self.kind.symbol(),
        }
    }

    /// The token as diagnostics print it: the label alone, or the label in
    /// quotes followed by the position.
    pub open spec fn display(self) -> Seq<char> {
        match self.location {
            Some(l) => "'"@ + self.label() + "' in "@ + l.text(),
            None => self.label(),
        }
    }
}

impl Token {
    /// The token of the given kind.  The text is kept only by the kinds that
    /// carry one.
    pub fn make(kind: TokenKind, text: Option<String>, location: Option<Location>) -> (t: Self)
        ensures
            t@.kind == kind,
            t@.text == (if kind.carries_text() {
                text_view(text)
            } else {
                None
            }),
            t@.location == location_view(location),
    {
        match kind {
            TokenKind::Illegal => Token::Illegal(text, location),
            TokenKind::EOF => Token::EOF(location),
            TokenKind::Ident => Token::Ident(text, location),
            TokenKind::Number => Token::Number(text, location),
            TokenKind::Comma => Token::Comma(location),
            TokenKind::Semicolon => Token::Semicolon(location),
            TokenKind::LParen => Token::LParen(location),
            TokenKind::RParen => Token::RParen(location),
            TokenKind::LSqBracket => Token::LSqBracket(location),
            TokenKind::RSqBracket => Token::RSqBracket(location),
            TokenKind::LBrace => Token::LBrace(location),
            TokenKind::Rbrace => Token::Rbrace(location),
            TokenKind::String => Token::String(text, location),
            TokenKind::Function => Token::Function(location),
            TokenKind::Let => Token::Let(location),
            TokenKind::Var => Token::Var(location),
            TokenKind::Bool => Token::Bool(location),
            TokenKind::True => Token::True(location),
            TokenKind::False => Token::False(location),
            TokenKind::While => Token::While(location),
            TokenKind::If => Token::If(location),
            TokenKind::Else => Token::Else(location),
            TokenKind::Return => Token::Return(location),
            TokenKind::Int => Token::Int(location),
            TokenKind::Str => Token::Str(location),
            TokenKind::Bang => Token::Bang(location),
            TokenKind::Asterisk => Token::Asterisk(location),
            TokenKind::Plus => Token::Plus(location),
            TokenKind::Minus => Token::Minus(location),
            TokenKind::Slash => Token::Slash(location),
            TokenKind::Assign => Token::Assign(location),
            TokenKind::Lt => Token::Lt(location),
            TokenKind::Gt => Token::Gt(location),
            TokenKind::Eq => Token::Eq(location),
            TokenKind::Lte => Token::Lte(location),
            TokenKind::Gte => Token::Gte(location),
            TokenKind::Diff => Token::Diff(location),
            TokenKind::And => Token::And(location),
            TokenKind::Or => Token::Or(location),
            TokenKind::ShiftLeft => Token::ShiftLeft(location),
            TokenKind::ShiftRight => Token::ShiftRight(location),
            TokenKind::BitWiseAnd => Token::BitWiseAnd(location),
            TokenKind::BitWiseOr => Token::BitWiseOr(location),
            TokenKind::Xor => Token::Xor(location),
            TokenKind::Array => Token::Array(location),
            TokenKind::Mod => Token::Mod(location),
        }
    }

    /// The kind of the token.
    pub fn kind(&self) -> (k: TokenKind)
        ensures
            k == self@.kind,
    {
        match self {
            Token::Illegal(_, _) => TokenKind::Illegal,
            Token::EOF(_) => TokenKind::EOF,
            Token::Ident(_, _) => TokenKind::Ident,
            Token::Number(_, _) => TokenKind::Number,
            Token::Comma(_) => TokenKind::Comma,
            Token::Semicolon(_) => TokenKind::Semicolon,
            Token::LParen(_) => TokenKind::LParen,
            Token::RParen(_) => TokenKind::RParen,
            Token::LSqBracket(_) => TokenKind::LSqBracket,
            Token::RSqBracket(_) => TokenKind::RSqBracket,
            Token::LBrace(_) => TokenKind::LBrace,
            Token::Rbrace(_) => TokenKind::Rbrace,
            Token::String(_, _) => TokenKind::String,
            Token::Function(_) => TokenKind::Function,
            Token::Let(_) => TokenKind::Let,
            Token::Var(_) => TokenKind::Var,
            Token::Bool(_) => TokenKind::Bool,
            Token::True(_) => TokenKind::True,
            Token::False(_) => TokenKind::False,
            Token::While(_) => TokenKind::While,
            Token::If(_) => TokenKind::If,
            Token::Else(_) => TokenKind::Else,
            Token::Return(_) => TokenKind::Return,
            Token::Int(_) => TokenKind::Int,
            Token::Str(_) => TokenKind::Str,
            Token::Bang(_) => TokenKind::Bang,
            Token::Asterisk(_) => TokenKind::Asterisk,
            Token::Plus(_) => TokenKind::Plus,
            Token::Minus(_) => TokenKind::Minus,
            Token::Slash(_) => TokenKind::Slash,
            Token::Assign(_) => TokenKind::Assign,
            Token::Lt(_) => TokenKind::Lt,
            Token::Gt(_) => TokenKind::Gt,
            Token::Eq(_) => TokenKind::Eq,
            Token::Lte(_) => TokenKind::Lte,
            Token::Gte(_) => TokenKind::Gte,
            Token::Diff(_) => TokenKind::Diff,
            Token::And(_) => TokenKind::And,
            Token::Or(_) => TokenKind::Or,
            Token::ShiftLeft(_) => TokenKind::ShiftLeft,
            Token::ShiftRight(_) => TokenKind::ShiftRight,
            Token::BitWiseAnd(_) => TokenKind::BitWiseAnd,
            Token::BitWiseOr(_) => TokenKind::BitWiseOr,
            Token::Xor(_) => TokenKind::Xor,
            Token::Array(_) => TokenKind::Array,
            Token::Mod(_) => TokenKind::Mod,
        }
    }

    /// The text of the token, for the kinds that carry one.
    pub fn text(&self) -> (t: &Option<String>)
        ensures
            text_view(*t) == self@.text,
    {
        match self {
            Token::Illegal(t, _) | Token::Ident(t, _) | Token::Number(t, _) | Token::String(t, _) => t,
            _ => &None,
        }
    }

    /// Where the token starts, if that is known.
    pub fn location(&self) -> (l: &Option<Location>)
        ensures
            location_view(*l) == self@.location,
    {
        match self {
            Token::Illegal(_, l) => l,
            Token::EOF(l) => l,
            Token::Ident(_, l) => l,
            Token::Number(_, l) => l,
            Token::Comma(l) => l,
            Token::Semicolon(l) => l,
            Token::LParen(l) => l,
            Token::RParen(l) => l,
            Token::LSqBracket(l) => l,
            Token::RSqBracket(l) => l,
            Token::LBrace(l) => l,
            Token::Rbrace(l) => l,
            Token::String(_, l) => l,
            Token::Function(l) => l,
            Token::Let(l) => l,
            Token::Var(l) => l,
            Token::Bool(l) => l,
            Token::True(l) => l,
            Token::False(l) => l,
            Token::While(l) => l,
            Token::If(l) => l,
            Token::Else(l) => l,
            Token::Return(l) => l,
            Token::Int(l) => l,
            Token::Str(l) => l,
            Token::Bang(l) => l,
            Token::Asterisk(l) => l,
            Token::Plus(l) => l,
            Token::Minus(l) => l,
            Token::Slash(l) => l,
            Token::Assign(l) => l,
            Token::Lt(l) => l,
            Token::Gt(l) => l,
            Token::Eq(l) => l,
            Token::Lte(l) => l,
            Token::Gte(l) => l,
            Token::Diff(l) => l,
            Token::And(l) => l,
            Token::Or(l) => l,
            Token::ShiftLeft(l) => l,
            Token::ShiftRight(l) => l,
            Token::BitWiseAnd(l) => l,
            Token::BitWiseOr(l) => l,
            Token::Xor(l) => l,
            Token::Array(l) => l,
            Token::Mod(l) => l,
        }
    }

    /// Classifies an identifier: the keyword token that `ident` spells, or an
    /// error if it spells none.
    pub fn get_keyword_token(ident: &str, location: Option<Location>) -> (r: Result<Token, String>)
        ensures
            match keyword_kind(ident@) {
                Some(k) => r matches Ok(t) && t@ == (TokenView {
                    kind: k,
                    text: None,
                    location: location_view(location),
                }),
                None => r matches Err(e) && e@ == "Not a keyword"@,
            },
    {
        match keyword(ident) {
            Some(k) => Ok(Token::make(k, None, location)),
            None => Err(String::from_str("Not a keyword")),
        }
    }

    /// The spelling of an operator token; `unknown` for any other token.
    pub fn literal(&self) -> (s: String)
        ensures
            s@ == self@.kind.literal(),
    {
        let kind = self.kind();
        if kind.operator() {
            String::from_str(kind.as_str())
        } else {
            String::from_str("unknown")
        }
    }

    /// The type that the token stands for.
    pub fn to_type(&self) -> (t: Type)
        ensures
            t == self@.kind.to_type(),
    {
        self.kind().type_of()
    }

    /// The token as diagnostics print it.
    pub fn to_string(&self) -> (s: String)
        ensures
            s@ == self@.display(),
    {
        let mut label = String::from_str(self.kind().as_str());
        match self.text() {
            Some(t) => {
                label.append(" (");
                label.append(t.as_str());
                label.append(")");
            },
            None => {},
        }
        match self.location() {
            Some(l) => {
                let mut s = String::from_str("'");
                s.append(label.as_str());
                s.append("' in ");
                s.append(l.filename.as_str());
                s.append(":");
                s.append(nat_to_string(l.line as u64).as_str());
                s.append(":");
                s.append(nat_to_string(l.position as u64).as_str());
                proof {
                    assert(s@ =~= self@.display());
                }
                s
            },
            None => label,
        }
    }
}

impl Clone for Token {
    fn clone(&self) -> (t: Self)
        ensures
            t@ == self@,
    {
        let text = match self.text() {
            Some(t) => Some(t.clone()),
            None => None,
        };
        let location = match self.location() {
            Some(l) => Some(l.clone()),
            None => None,
        };
        Token::make(self.kind(), text, location)
    }
}

impl PartialEq for Token {
    fn eq(&self, other: &Self) -> (b: bool) {
        self.kind() == other.kind()
    }
}

impl vstd::std_specs::cmp::PartialEqSpecImpl for Token {
    open spec fn obeys_eq_spec() -> bool {
        true
    }

    open spec fn eq_spec(&self, other: &Self) -> bool {
        self@.kind == other@.kind
    }
}

impl Eq for Token {

}

} // verus!
