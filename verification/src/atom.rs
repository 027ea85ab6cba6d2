use vstd::prelude::*;

use crate::span::Span;
use crate::token::{Token, TokenKind, token_of_atom};

verus! {

/// A symbol, such as `+`, `=` or `::`.
#[derive(Debug, Clone, Copy, PartialEq, Eq, Structural)]
pub enum Symbol {
    /// The assignment symbol (`=`).
    Assign,
    /// A comma (`,`).
    Comma,
    /// An opening, or left, parenthesis (`(`).
    LParen,
    /// A closing, or right, parenthesis (`)`).
    RParen,
    /// The plus sign (`+`).
    Plus,
    /// Two colons (`::`).
    TwoColons,
}

/// The canonical spelling of a symbol: the one source text it is lexed from.
pub open spec fn symbol_text(sym: Symbol) -> Seq<char> {
    match sym {
        Symbol::Assign => seq!['='],
        Symbol::Comma => seq![','],
        Symbol::LParen => seq!['('],
        Symbol::RParen => seq![')'],
        Symbol::Plus => seq!['+'],
        Symbol::TwoColons => seq![':', ':'],
    }
}

impl Symbol {
    /// Whether the symbol acts as a binary operator between two expressions.
    pub open spec fn spec_is_binop(self) -> bool {
        self is Plus
    }

    /// Returns `true` when the symbol is a binary operator.
    pub fn is_binop(&self) -> (r: bool)
        ensures
            r == self.spec_is_binop(),
    {
        matches!(self, Symbol::Plus)
    }

    /// Returns the canonical spelling of the symbol, the exact source text
    /// the tokenizer recognizes it from.
    pub fn text(&self) -> (r: &'static str)
        ensures
            r@ == symbol_text(*self),
    {
        match self {
            Symbol::Assign => {
                let r = "=";
                proof {
                    reveal_strlit("=");
                    assert(r@ =~= symbol_text(*self));
                }
                r
            },
            Symbol::Comma => {
                let r = ",";
                proof {
                    reveal_strlit(",");
                    assert(r@ =~= symbol_text(*self));
                }
                r
            },
            Symbol::LParen => {
                let r = "(";
                proof {
                    reveal_strlit("(");
                    assert(r@ =~= symbol_text(*self));
                }
                r
            },
            Symbol::RParen => {
                let r = ")";
                proof {
                    reveal_strlit(")");
                    assert(r@ =~= symbol_text(*self));
                }
                r
            },
            Symbol::Plus => {
                let r = "+";
                proof {
                    reveal_strlit("+");
                    assert(r@ =~= symbol_text(*self));
                }
                r
            },
            Symbol::TwoColons => {
                let r = "::";
                proof {
                    reveal_strlit("::");
                    assert(r@ =~= symbol_text(*self));
                }
                r
            },
        }
    }
}

/// The radix a numeric literal was written in.
#[derive(Debug, Clone, Copy, PartialEq, Eq, Structural)]
pub enum Radix {
    /// A binary literal, written with a `0b` or `0B` prefix.
    Binary,
    /// A plain decimal literal.
    Decimal,
    /// A hexadecimal literal, written with a `0x` or `0X` prefix.
    Hexadecimal,
}

/// One lexical unit as classified by the tokenizer rules, together with the
/// raw text it was lexed from where the rule captures text.
#[derive(Debug)]
pub enum Atom {
    /// A name: a letter or underscore followed by letters, digits and
    /// underscores.
    Identifier(String),
    /// The assignment symbol (`=`).
    Assign,
    /// A comma (`,`).
    Comma,
    /// An opening parenthesis (`(`).
    LParen,
    /// A closing parenthesis (`)`).
    RParen,
    /// The plus sign (`+`).
    Plus,
    /// Two colons (`::`).
    TwoColons,
    /// An integer literal, tagged with its radix; the text keeps any
    /// underscores and radix prefix exactly as written.
    Integer(Radix, String),
    /// A floating literal: digits and a dot, kept exactly as written.
    Float(String),
    /// A double-quoted string literal, kept raw: quotes and escape
    /// sequences are not decoded.
    Str(String),
    /// One of the exact keywords `true` and `false`.
    Boolean(String),
}

impl Clone for Atom {
    /// Clones the atom, keeping its classification and text.
    fn clone(&self) -> (a: Self)
        ensures
            a == *self,
    {
        match self {
            Atom::Identifier(text) => Atom::Identifier(text.clone()),
            Atom::Assign => Atom::Assign,
            Atom::Comma => Atom::Comma,
            Atom::LParen => Atom::LParen,
            Atom::RParen => Atom::RParen,
            Atom::Plus => Atom::Plus,
            Atom::TwoColons => Atom::TwoColons,
            Atom::Integer(radix, text) => Atom::Integer(*radix, text.clone()),
            Atom::Float(text) => Atom::Float(text.clone()),
            Atom::Str(text) => Atom::Str(text.clone()),
            Atom::Boolean(text) => Atom::Boolean(text.clone()),
        }
    }
}

impl Atom {
    /// The category of token this atom belongs to.
    pub open spec fn spec_kind(self) -> TokenKind {
        match self {
            Atom::Identifier(_) => TokenKind::Identifier,
            Atom::Integer(_, _) => TokenKind::Literal,
            Atom::Float(_) => TokenKind::Literal,
            Atom::Str(_) => TokenKind::Literal,
            Atom::Boolean(_) => TokenKind::Literal,
            _ => TokenKind::Symbol,
        }
    }

    /// The kind of symbol represented by the atom, if any.
    pub open spec fn spec_symbol(self) -> Option<Symbol> {
        match self {
            Atom::Assign => Some(Symbol::Assign),
            Atom::Comma => Some(Symbol::Comma),
            Atom::LParen => Some(Symbol::LParen),
            Atom::RParen => Some(Symbol::RParen),
            Atom::Plus => Some(Symbol::Plus),
            Atom::TwoColons => Some(Symbol::TwoColons),
            _ => None,
        }
    }

    /// Returns the kind of symbol represented by the atom.
    pub fn symbol(&self) -> (r: Option<Symbol>)
        ensures
            r == self.spec_symbol(),
    {
        match self {
            Atom::Assign => Some(Symbol::Assign),
            Atom::Comma => Some(Symbol::Comma),
            Atom::RParen => Some(Symbol::RParen),
            Atom::LParen => Some(Symbol::LParen),
            Atom::Plus => Some(Symbol::Plus),
            Atom::TwoColons => Some(Symbol::TwoColons),
            _ => None,
        }
    }

    /// Infallibly turns the atom into a `Token` covering `span`.
    pub fn into_token(self, span: Span) -> (t: Token)
        requires
            span.wf(),
        ensures
            t@ == token_of_atom(self, span),
    {
        match self {
            Atom::Assign => Token::symbol(self, span),
            Atom::Comma => Token::symbol(self, span),
            Atom::LParen => Token::symbol(self, span),
            Atom::RParen => Token::symbol(self, span),
            Atom::Plus => Token::symbol(self, span),
            Atom::TwoColons => Token::symbol(self, span),
            Atom::Integer(_, _) => Token::literal(self, span),
            Atom::Float(_) => Token::literal(self, span),
            Atom::Str(_) => Token::literal(self, span),
            Atom::Boolean(_) => Token::literal(self, span),
            Atom::Identifier(_) => Token::identifier(self, span),
        }
    }
}

} // verus!
