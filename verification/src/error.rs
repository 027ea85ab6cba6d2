use vstd::prelude::*;

use crate::atom::Symbol;
use crate::span::Span;
use crate::token::{Token, TokenKind, TokenV};

verus! {

/// The kinds of failure the tokenizer can report to a caller that rejects
/// unmatched text eagerly instead of passing unknown tokens on to the
/// parser.
#[derive(Debug, Clone, Copy, PartialEq, Eq, Structural)]
pub enum TokenizerErrorKind {
    /// A maximal slice of text matched no lexical rule.
    UnknownToken,
}

/// A tokenizer failure: its kind, the span of the offending text, and the
/// offending text itself.
#[derive(Debug)]
pub struct TokenizerError {
    kind: TokenizerErrorKind,
    span: Span,
    slice: String,
}

impl TokenizerError {
    /// The kind of failure.
    pub closed spec fn spec_kind(self) -> TokenizerErrorKind {
        self.kind
    }

    /// The span of the offending text.
    pub closed spec fn spec_span(self) -> Span {
        self.span
    }

    /// The offending text.
    pub closed spec fn spec_slice(self) -> Seq<char> {
        self.slice@
    }

    /// Builds a tokenizer failure from its parts.
    pub fn new(kind: TokenizerErrorKind, span: Span, slice: String) -> (e: Self)
        ensures
            e.spec_kind() == kind,
            e.spec_span() == span,
            e.spec_slice() == slice@,
    {
        Self { kind, span, slice }
    }

    /// Returns the kind of failure.
    pub fn kind(&self) -> (k: TokenizerErrorKind)
        ensures
            k == self.spec_kind(),
    {
        self.kind
    }

    /// Returns the span of the offending text.
    pub fn span(&self) -> (s: Span)
        ensures
            s == self.spec_span(),
    {
        self.span
    }

    /// Returns the offending text.
    pub fn slice(&self) -> (t: &String)
        ensures
            t@ == self.spec_slice(),
    {
        &self.slice
    }
}

/// What the parser required at the point a token failed to match.
#[derive(Debug)]
pub enum Expectation {
    /// A set of acceptable token kinds.
    Token(Vec<TokenKind>),
    /// A set of acceptable symbols.
    Symbol(Vec<Symbol>),
    /// A named grammar rule, reported when the first token of the rule
    /// already fails to match.
    Node(&'static str),
    /// A binary operator.
    Binop,
}

/// The mathematical value of an expectation.
pub enum ExpectationV {
    /// A set of acceptable token kinds.
    Token(Seq<TokenKind>),
    /// A set of acceptable symbols.
    Symbol(Seq<Symbol>),
    /// A named grammar rule.
    Node(Seq<char>),
    /// A binary operator.
    Binop,
}

impl View for Expectation {
    type V = ExpectationV;

    open spec fn view(&self) -> ExpectationV {
        match self {
            Expectation::Token(kinds) => ExpectationV::Token(kinds@),
            Expectation::Symbol(symbols) => ExpectationV::Symbol(symbols@),
            Expectation::Node(name) => ExpectationV::Node(name@),
            Expectation::Binop => ExpectationV::Binop,
        }
    }
}

impl DeepView for Expectation {
    type V = ExpectationV;

    open spec fn deep_view(&self) -> ExpectationV {
        self.view()
    }
}

/// The parser's terminal error: the token actually found and what would
/// have been acceptable in its place. The first error aborts the parse and
/// is returned to the caller verbatim.
#[derive(Debug)]
pub struct ParseError {
    /// The token the parser found.
    pub found: Token,
    /// What the parser would have accepted.
    pub expectation: Expectation,
}

/// The mathematical value of a parse error.
pub struct ParseErrorV {
    /// The token the parser found.
    pub found: TokenV,
    /// What the parser would have accepted.
    pub expectation: ExpectationV,
}

impl View for ParseError {
    type V = ParseErrorV;

    open spec fn view(&self) -> ParseErrorV {
        ParseErrorV { found: self.found@, expectation: self.expectation@ }
    }
}

impl DeepView for ParseError {
    type V = ParseErrorV;

    open spec fn deep_view(&self) -> ParseErrorV {
        self.view()
    }
}

} // verus!
