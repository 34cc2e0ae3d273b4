//! The semantic types that the parser attaches to expressions.

use vstd::prelude::*;

verus! {

/// The resolved type of an expression or of a runtime value.
#[derive(Debug, Clone, Copy, PartialEq, Eq, Structural)]
pub enum Type {
    Int,
    Bool,
    Array,
    Error,
    Index,
    Prefix,
    String,
    BuiltIn,
    Unknown,
    Function,
    Expression,
}

impl Type {
    /// The name under which the type appears in source text and in messages.
    pub open spec fn name(self) -> Seq<char> {
        match self {
            Type::Int => "int"@,
            Type::Bool => "bool"@,
            Type::String => "str"@,
            Type::Index => "Index"@,
            Type::Array => "array"@,
            Type::Error => "error"@,
            Type::Unknown => "unk"@,
            Type::Prefix => "prefix"@,
            Type::Function => "function"@,
            Type::Expression => "expression"@,
            Type::BuiltIn => "built in function"@,
        }
    }

    /// Whether a binding or a parameter can be declared with this type, that
    /// is, whether the language has a keyword for it.
    pub open spec fn is_declarable(self) -> bool {
        self == Type::Int || self == Type::Bool || self == Type::String || self == Type::Array
    }

    /// The type's name as a static string.
    pub fn as_str(&self) -> (s: &'static str)
        ensures
            s@ == self.name(),
    {
        match self {
            Type::Int => "int",
            Type::Bool => "bool",
            Type::String => "str",
            Type::Index => "Index",
            Type::Array => "array",
            Type::Error => "error",
            Type::Unknown => "unk",
            Type::Prefix => "prefix",
            Type::Function => "function",
            Type::Expression => "expression",
            Type::BuiltIn => "built in function",
        }
    }

    /// The type's name as an owned string.
    pub fn to_string(&self) -> (s: String)
        ensures
            s@ == self.name(),
    {
        String::from_str(self.as_str())
    }

    /// Tells whether the language has a keyword for this type.
    pub fn declarable(&self) -> (b: bool)
        ensures
            b == self.is_declarable(),
    {
        match self {
            Type::Int | Type::Bool | Type::String | Type::Array => true,
            _ => false,
        }
    }
}

} // verus!
