//! A tree-walking interpreter for a small scripting language.
//!
//! Source text flows one way through the crate: the [`lexer`] turns characters
//! into located tokens, the [`parser`] turns tokens into an [`ast`] whose nodes
//! carry a resolved type, and the [`evaluator`] walks that tree against an
//! environment of [`object`] values.  Every function is specified against a
//! mathematical model of its data and proved to meet that specification.
//!
//! Beside the functions stand laws, proved of every input:
//!
//! - the token stream of any text is finite and ends with the end of the
//!   input ([`lexer::lemma_tokens_from`]);
//! - a tree survives printing: the text of a parsed tree parses to the same
//!   tree, without a diagnostic ([`parser::laws::lemma_round_trip`]);
//! - a runtime error is the value of every expression that it arises in
//!   ([`evaluator::laws`]);
//! - a name that an enclosing scope binds is written there, and a name that
//!   none binds is bound in the scope at hand ([`object::environment`]);
//! - a number that is formatted and read again is the same number
//!   ([`text::lemma_parse_int_text`]).

pub mod text;
pub mod ast;
pub mod lexer;
pub mod parser;
pub mod object;
pub mod evaluator;
