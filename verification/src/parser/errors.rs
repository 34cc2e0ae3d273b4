//! What stops the parsing of a statement.

use vstd::prelude::*;

verus! {

/// Why no statement or expression was parsed: the input ended, or the
/// tokens do not form one, with the diagnostic that says why.
#[derive(Debug)]
pub enum ParseError {
    Eof,
    Message(String),
}

/// The model of a [`ParseError`].
pub enum ParseErrorView {
    Eof,
    Message(Seq<char>),
}

impl View for ParseError {
    type V = ParseErrorView;

    open spec fn view(&self) -> ParseErrorView {
        match self {
            ParseError::Eof => ParseErrorView::Eof,
            ParseError::Message(m) => ParseErrorView::Message(m@),
        }
    }
}

impl ParseErrorView {
    /// The error as text: the diagnostic, or `EOF` for the end of the input.
    pub open spec fn text(self) -> Seq<char> {
        match self {
            ParseErrorView::Eof => "EOF"@,
            ParseErrorView::Message(m) => m,
        }
    }
}

impl ParseError {
    /// The error as text.
    pub fn to_string(&self) -> (s: String)
        ensures
            s@ == self@.text(),
    {
        match self {
            ParseError::Eof => String::from_str("EOF"),
            ParseError::Message(m) => m.clone(),
        }
    }
}

} // verus!
