//! Binding powers: how tightly an operator holds its operands.

use crate::lexer::token::TokenKind;
use vstd::prelude::*;

verus! {

/// The binding powers, from the loosest to the tightest.
#[derive(Debug, Clone, Copy, PartialEq, Eq, Structural)]
pub enum Precedence {
    Lowest,
    AndOr,
    Equals,
    LessGreater,
    Sum,
    Product,
    Prefix,
    Call,
    Index,
}

impl Precedence {
    /// The rank of the binding power: one for the loosest, nine for the
    /// tightest.
    pub open spec fn rank(self) -> int {
        match self {
            Precedence::Lowest => 1,
            Precedence::AndOr => 2,
            Precedence::Equals => 3,
            Precedence::LessGreater => 4,
            Precedence::Sum => 5,
            Precedence::Product => 6,
            Precedence::Prefix => 7,
            Precedence::Call => 8,
            Precedence::Index => 9,
        }
    }

    /// The rank as a machine integer.
    pub fn level(&self) -> (r: u8)
        ensures
            r as int == self.rank(),
    {
        match self {
            Precedence::Lowest => 1,
            Precedence::AndOr => 2,
            Precedence::Equals => 3,
            Precedence::LessGreater => 4,
            Precedence::Sum => 5,
            Precedence::Product => 6,
            Precedence::Prefix => 7,
            Precedence::Call => 8,
            Precedence::Index => 9,
        }
    }

    /// Tells whether `self` binds less tightly than `other`.
    pub fn below(&self, other: &Precedence) -> (b: bool)
        ensures
            b == (self.rank() < other.rank()),
    {
        self.level() < other.level()
    }
}

/// The binding power of a token that stands between two operands; the
/// loosest for a token that is no operator.
pub open spec fn precedence_of(kind: TokenKind) -> Precedence {
    match kind {
        TokenKind::Eq | TokenKind::Diff => Precedence::Equals,
        TokenKind::Or | TokenKind::And => Precedence::AndOr,
        TokenKind::Lt
        | TokenKind::Gt
        | TokenKind::Lte
        | TokenKind::Gte
        | TokenKind::Assign => Precedence::LessGreater,
        TokenKind::Plus | TokenKind::Minus => Precedence::Sum,
        TokenKind::Slash | TokenKind::Asterisk => Precedence::Product,
        TokenKind::LParen => Precedence::Call,
        TokenKind::LSqBracket => Precedence::Index,
        _ => Precedence::Lowest,
    }
}

/// Looks up the binding power of a token kind.
pub fn get_precedence(kind: TokenKind) -> (p: Precedence)
    ensures
        p == precedence_of(kind),
{
    match kind {
        TokenKind::Eq | TokenKind::Diff => Precedence::Equals,
        TokenKind::Or | TokenKind::And => Precedence::AndOr,
        TokenKind::Lt
        | TokenKind::Gt
        | TokenKind::Lte
        | TokenKind::Gte
        | TokenKind::Assign => Precedence::LessGreater,
        TokenKind::Plus | TokenKind::Minus => Precedence::Sum,
        TokenKind::Slash | TokenKind::Asterisk => Precedence::Product,
        TokenKind::LParen => Precedence::Call,
        TokenKind::LSqBracket => Precedence::Index,
        _ => Precedence::Lowest,
    }
}

} // verus!
