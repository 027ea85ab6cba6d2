//! The front end of a small statement language: a tokenizer that turns
//! source text into a spanned token sequence, and a recursive-descent parser
//! that turns the token sequence into a syntax tree.
//!
//! The tokenizer skips whitespace, classifies identifiers, boolean, integer,
//! floating and string literals, and a fixed set of symbols by
//! longest-match rules, emits unknown tokens for unmatched text, and ends
//! every sequence with exactly one end-of-input token. Literal text is kept
//! exactly as written, underscores and radix prefixes included. The parser
//! reads the tokens through a one-token-lookahead cursor and builds the
//! syntax tree top-down, stopping at the first error.
//!
//! Unknown tokens do not abort tokenization: they are ordinary tokens of the
//! sequence, and the parser rejects the first one it meets as an ordinary
//! unexpected token. This one policy holds throughout; a caller that wants
//! to reject unmatched text before parsing can walk the tokens and report a
//! `TokenizerError` itself.

use vstd::prelude::*;

pub mod atom;
pub mod error;
pub mod grammar;
pub mod lexical;
pub mod parser_state;
pub mod parsers;
pub mod span;
pub mod token;

pub use atom::Symbol;
pub use error::{ParseError, TokenizerError, TokenizerErrorKind};
pub use span::Span;
pub use token::{Token, TokenKind, tokenize};

use crate::error::ParseErrorV;
use crate::grammar::spec_parse_assignment;
use crate::parser_state::ParserState;
use crate::parsers::{Assignment, AssignmentV};

verus! {

/// Parses a token sequence into the one top-level statement the grammar
/// covers: a typed variable assignment. The sequence must be a genuine
/// token sequence, that is, it ends with the end-of-input token; `tokenize`
/// produces exactly such sequences. Returns the syntax tree, or the first
/// error encountered, and nothing of a partial tree beside it.
pub fn parse(tokens: Vec<Token>) -> (r: Result<Assignment, ParseError>)
    requires
        tokens.deep_view().len() > 0,
        tokens.deep_view().last() is Eof,
    ensures
        match r {
            Ok(node) => spec_parse_assignment(tokens.deep_view(), 0) matches Ok(res) && res.0
                == node@,
            Err(e) => spec_parse_assignment(tokens.deep_view(), 0) matches Err(ev) && ev == e@,
        },
{
    let mut state = ParserState::new(tokens);
    Assignment::parse(&mut state)
}

} // verus!
