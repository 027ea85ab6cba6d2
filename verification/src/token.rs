use vstd::prelude::*;
use vstd::string::StrSliceExecFns;

use crate::atom::{Atom, Radix, Symbol, symbol_text};
use crate::lexical::{
    CharClass, char_in_class, chars_of, dec_digit, ident_start, is_whitespace_char,
    lemma_spec_tokenize_from_step, lemma_token_at, range_has_dec_digit, scan_class,
    scan_string_end, spec_tokenize, spec_tokenize_from, token_at, whitespace_char,
    word_is_boolean,
};
use crate::span::{Span, SpanV};

verus! {

/// Represents the category of a token.
#[derive(Debug, Clone, Copy, PartialEq, Eq, Structural)]
pub enum TokenKind {
    /// A symbol, such as `+`, `=` or `::`.
    Symbol,
    /// A name a value can take, such as `foo` or `bar2`.
    Identifier,
    /// A literal value, like a number or string.
    Literal,
    /// The end of the input.
    Eof,
    /// An unknown token, which no rule could match against, such as `%`.
    Unknown,
}

/// Data associated with a token: an atom for all ordinary tokens, the
/// offending slice of text for an unknown token, or nothing for the end of
/// the input.
#[derive(Debug)]
pub(crate) enum TokenData {
    Atom(Atom),
    FromUnknown(String),
    Empty,
}

impl Clone for TokenData {
    /// Clones the data, keeping its variant and contents.
    fn clone(&self) -> (d: Self)
        ensures
            d == *self,
    {
        match self {
            TokenData::Atom(atom) => TokenData::Atom(atom.clone()),
            TokenData::FromUnknown(text) => TokenData::FromUnknown(text.clone()),
            TokenData::Empty => TokenData::Empty,
        }
    }
}

/// The mathematical value of a literal token: its raw text, tagged with the
/// classification the tokenizer gave it.
pub enum LiteralV {
    /// An integer literal with its radix; the text keeps prefix and
    /// underscores exactly as written.
    Integer { radix: Radix, text: Seq<char> },
    /// A floating literal, kept exactly as written.
    Float { text: Seq<char> },
    /// A string literal, kept raw with its quotes and escapes.
    Str { text: Seq<char> },
    /// One of the exact keywords `true` and `false`.
    Boolean { text: Seq<char> },
}

impl LiteralV {
    /// The raw source text of the literal.
    pub open spec fn text(self) -> Seq<char> {
        match self {
            LiteralV::Integer { text, .. } => text,
            LiteralV::Float { text } => text,
            LiteralV::Str { text } => text,
            LiteralV::Boolean { text } => text,
        }
    }
}

/// The mathematical value of a token: what it is, the text it carries, and
/// where it lies in the source.
pub enum TokenV {
    /// A name.
    Identifier { name: Seq<char>, span: SpanV },
    /// A symbol.
    Symbol { symbol: Symbol, span: SpanV },
    /// A literal value.
    Literal { literal: LiteralV, span: SpanV },
    /// The end of the input.
    Eof { span: SpanV },
    /// A maximal slice of text no rule matched.
    Unknown { text: Seq<char>, span: SpanV },
}

impl TokenV {
    /// The category of the token.
    pub open spec fn kind(self) -> TokenKind {
        match self {
            TokenV::Identifier { .. } => TokenKind::Identifier,
            TokenV::Symbol { .. } => TokenKind::Symbol,
            TokenV::Literal { .. } => TokenKind::Literal,
            TokenV::Eof { .. } => TokenKind::Eof,
            TokenV::Unknown { .. } => TokenKind::Unknown,
        }
    }

    /// The location of the token in the source.
    pub open spec fn span(self) -> SpanV {
        match self {
            TokenV::Identifier { span, .. } => span,
            TokenV::Symbol { span, .. } => span,
            TokenV::Literal { span, .. } => span,
            TokenV::Eof { span } => span,
            TokenV::Unknown { span, .. } => span,
        }
    }

    /// The symbol carried by a symbol token.
    pub open spec fn sym(self) -> Symbol
        recommends
            self is Symbol,
    {
        match self {
            TokenV::Symbol { symbol, .. } => symbol,
            _ => arbitrary(),
        }
    }

    /// The exact source text the token was lexed from: its payload text for
    /// name, literal and unknown tokens, the canonical spelling for a
    /// symbol, and the empty text at the end of the input.
    pub open spec fn text(self) -> Seq<char> {
        match self {
            TokenV::Identifier { name, .. } => name,
            TokenV::Symbol { symbol, .. } => symbol_text(symbol),
            TokenV::Literal { literal, .. } => literal.text(),
            TokenV::Eof { .. } => Seq::empty(),
            TokenV::Unknown { text, .. } => text,
        }
    }
}

/// The mathematical value of the token built from `atom` over `span`.
pub open spec fn token_of_atom(atom: Atom, span: Span) -> TokenV {
    match atom {
        Atom::Identifier(name) => TokenV::Identifier { name: name@, span: span@ },
        Atom::Assign => TokenV::Symbol { symbol: Symbol::Assign, span: span@ },
        Atom::Comma => TokenV::Symbol { symbol: Symbol::Comma, span: span@ },
        Atom::LParen => TokenV::Symbol { symbol: Symbol::LParen, span: span@ },
        Atom::RParen => TokenV::Symbol { symbol: Symbol::RParen, span: span@ },
        Atom::Plus => TokenV::Symbol { symbol: Symbol::Plus, span: span@ },
        Atom::TwoColons => TokenV::Symbol { symbol: Symbol::TwoColons, span: span@ },
        Atom::Integer(radix, text) => TokenV::Literal {
            literal: LiteralV::Integer { radix, text: text@ },
            span: span@,
        },
        Atom::Float(text) => TokenV::Literal { literal: LiteralV::Float { text: text@ }, span: span@ },
        Atom::Str(text) => TokenV::Literal { literal: LiteralV::Str { text: text@ }, span: span@ },
        Atom::Boolean(text) => TokenV::Literal {
            literal: LiteralV::Boolean { text: text@ },
            span: span@,
        },
    }
}

/// The literal payload of an atom of literal kind.
pub open spec fn literal_of_atom(atom: Atom) -> LiteralV
    recommends
        atom.spec_kind() == TokenKind::Literal,
{
    match atom {
        Atom::Integer(radix, text) => LiteralV::Integer { radix, text: text@ },
        Atom::Float(text) => LiteralV::Float { text: text@ },
        Atom::Str(text) => LiteralV::Str { text: text@ },
        Atom::Boolean(text) => LiteralV::Boolean { text: text@ },
        _ => arbitrary(),
    }
}

/// A spanned token with its data.
///
/// A token's kind always agrees with its data variant: extracting data of
/// the wrong kind is a contract violation on the caller, not a recoverable
/// condition, so the extracting methods require the kind they extract.
#[derive(Debug)]
pub struct Token {
    /// The kind of token represented by the data.
    kind: TokenKind,
    /// The data associated with this token, most often an atom.
    data: TokenData,
    /// The span of the token.
    span: Span,
}

impl Clone for Token {
    /// Clones the token, keeping its kind, data and span.
    fn clone(&self) -> (t: Self)
        ensures
            t == *self,
    {
        proof {
            use_type_invariant(self);
        }
        Self { kind: self.kind, data: self.data.clone(), span: self.span }
    }
}

impl View for Token {
    type V = TokenV;

    closed spec fn view(&self) -> TokenV {
        match self.data {
            TokenData::Atom(atom) => token_of_atom(atom, self.span),
            TokenData::FromUnknown(text) => TokenV::Unknown { text: text@, span: self.span@ },
            TokenData::Empty => TokenV::Eof { span: self.span@ },
        }
    }
}

impl DeepView for Token {
    type V = TokenV;

    open spec fn deep_view(&self) -> TokenV {
        self.view()
    }
}

impl Token {
    /// The kind recorded for the token always agrees with its data variant,
    /// and its span is a genuine half-open range.
    #[verifier::type_invariant]
    pub closed spec fn wf(self) -> bool {
        &&& self.span.wf()
        &&& match self.data {
            TokenData::Atom(atom) => self.kind == atom.spec_kind(),
            TokenData::FromUnknown(_) => self.kind == TokenKind::Unknown,
            TokenData::Empty => self.kind == TokenKind::Eof,
        }
    }

    /// Returns a token with a `TokenKind` of `Identifier`.
    pub(crate) fn identifier(atom: Atom, span: Span) -> (t: Self)
        requires
            atom.spec_kind() == TokenKind::Identifier,
            span.wf(),
        ensures
            t@ == token_of_atom(atom, span),
    {
        Self { kind: TokenKind::Identifier, data: TokenData::Atom(atom), span }
    }

    /// Returns a token with a `TokenKind` of `Symbol`.
    pub(crate) fn symbol(atom: Atom, span: Span) -> (t: Self)
        requires
            atom.spec_kind() == TokenKind::Symbol,
            span.wf(),
        ensures
            t@ == token_of_atom(atom, span),
    {
        Self { kind: TokenKind::Symbol, data: TokenData::Atom(atom), span }
    }

    /// Returns a token with a `TokenKind` of `Literal`.
    pub(crate) fn literal(atom: Atom, span: Span) -> (t: Self)
        requires
            atom.spec_kind() == TokenKind::Literal,
            span.wf(),
        ensures
            t@ == token_of_atom(atom, span),
    {
        Self { kind: TokenKind::Literal, data: TokenData::Atom(atom), span }
    }

    /// Returns a token marking the end of the input.
    pub(crate) fn eof(span: Span) -> (t: Self)
        requires
            span.wf(),
        ensures
            t@ == (TokenV::Eof { span: span@ }),
    {
        Self { kind: TokenKind::Eof, data: TokenData::Empty, span }
    }

    /// Returns an unknown token carrying the unmatched slice of text.
    pub(crate) fn unknown(span: Span, sl: String) -> (t: Self)
        requires
            span.wf(),
        ensures
            t@ == (TokenV::Unknown { text: sl@, span: span@ }),
    {
        Self { kind: TokenKind::Unknown, data: TokenData::FromUnknown(sl), span }
    }

    /// Returns the token's kind.
    pub fn kind(&self) -> (k: TokenKind)
        ensures
            k == self@.kind(),
    {
        proof {
            use_type_invariant(self);
        }
        self.kind
    }

    /// Returns the token's span.
    pub fn span(&self) -> (s: Span)
        ensures
            s@ == self@.span(),
            s.wf(),
    {
        proof {
            use_type_invariant(self);
        }
        self.span
    }

    /// Returns the token's symbol.
    ///
    /// Callers must ensure the token's kind is `Symbol` before using this
    /// method; on any other token it is a contract violation.
    pub fn as_symbol(&self) -> (s: Symbol)
        requires
            self@ is Symbol,
        ensures
            s == self@.sym(),
    {
        match &self.data {
            TokenData::Atom(atom) => match atom {
                Atom::Assign => Symbol::Assign,
                Atom::Comma => Symbol::Comma,
                Atom::LParen => Symbol::LParen,
                Atom::RParen => Symbol::RParen,
                Atom::Plus => Symbol::Plus,
                Atom::TwoColons => Symbol::TwoColons,
                _ => unreached(),
            },
            _ => unreached(),
        }
    }

    /// Returns the name carried by an identifier token.
    ///
    /// Callers must ensure the token's kind is `Identifier` before using
    /// this method.
    pub fn as_identifier(&self) -> (name: &String)
        requires
            self@ is Identifier,
        ensures
            self@ == (TokenV::Identifier { name: name@, span: self@.span() }),
    {
        match &self.data {
            TokenData::Atom(Atom::Identifier(name)) => name,
            _ => unreached(),
        }
    }

    /// Returns the atom carried by a literal token.
    ///
    /// Callers must ensure the token's kind is `Literal` before using this
    /// method.
    pub fn as_literal(&self) -> (atom: &Atom)
        requires
            self@ is Literal,
        ensures
            atom.spec_kind() == TokenKind::Literal,
            self@ == (TokenV::Literal { literal: literal_of_atom(*atom), span: self@.span() }),
    {
        match &self.data {
            TokenData::Atom(atom) => {
                proof {
                    use_type_invariant(self);
                }
                atom
            },
            _ => unreached(),
        }
    }

    /// Returns the unmatched slice of text carried by an unknown token.
    ///
    /// Callers must ensure the token's kind is `Unknown` before using this
    /// method.
    pub fn as_unknown(&self) -> (text: &String)
        requires
            self@ is Unknown,
        ensures
            self@ == (TokenV::Unknown { text: text@, span: self@.span() }),
    {
        match &self.data {
            TokenData::FromUnknown(text) => text,
            _ => unreached(),
        }
    }
}

/// Copies the slice `content[lo..hi]` into an owned string.
fn substring_to_string(content: &str, lo: usize, hi: usize) -> (r: String)
    requires
        lo <= hi <= content@.len(),
    ensures
        r@ == content@.subrange(lo as int, hi as int),
{
    let sub = content.substring_char(lo, hi);
    sub.to_owned()
}

/// Reads the one token that starts at the non-whitespace position `i`,
/// returning it together with the position just after it.
fn next_token(content: &str, chars: &Vec<char>, i: usize) -> (r: (Token, usize))
    requires
        chars@ == content@,
        i < chars@.len(),
        !is_whitespace_char(chars@[i as int]),
    ensures
        r.0@ == token_at(chars@, i as int),
        r.1 as int == token_at(chars@, i as int).span().end,
        i < r.1 <= chars@.len(),
{
    proof {
        lemma_token_at(chars@, i as int);
    }
    let n = chars.len();
    let c = chars[i];
    if dec_digit(c) {
        if c == '0' && i + 1 < n && (chars[i + 1] == 'b' || chars[i + 1] == 'B') && i + 2 < n
            && char_in_class(chars[i + 2], CharClass::BinCont) {
            let end = scan_class(chars, i + 2, CharClass::BinCont);
            let text = substring_to_string(content, i, end);
            (Token::literal(Atom::Integer(Radix::Binary, text), Span { start: i, end }), end)
        } else if c == '0' && i + 1 < n && (chars[i + 1] == 'x' || chars[i + 1] == 'X') && i + 2
            < n && char_in_class(chars[i + 2], CharClass::HexCont) {
            let end = scan_class(chars, i + 2, CharClass::HexCont);
            let text = substring_to_string(content, i, end);
            (Token::literal(Atom::Integer(Radix::Hexadecimal, text), Span { start: i, end }), end)
        } else {
            let d = scan_class(chars, i + 1, CharClass::DecCont);
            if d < n && chars[d] == '.' {
                let end = scan_class(chars, d + 1, CharClass::DecCont);
                let text = substring_to_string(content, i, end);
                (Token::literal(Atom::Float(text), Span { start: i, end }), end)
            } else {
                let text = substring_to_string(content, i, d);
                (Token::literal(Atom::Integer(Radix::Decimal, text), Span { start: i, end: d }), d)
            }
        }
    } else if c == '.' {
        let end = scan_class(chars, i + 1, CharClass::DecCont);
        if range_has_dec_digit(chars, i + 1, end) {
            let text = substring_to_string(content, i, end);
            (Token::literal(Atom::Float(text), Span { start: i, end }), end)
        } else {
            let text = substring_to_string(content, i, i + 1);
            (Token::unknown(Span { start: i, end: i + 1 }, text), i + 1)
        }
    } else if c == '"' {
        match scan_string_end(chars, i + 1) {
            Some(end) => {
                let text = substring_to_string(content, i, end);
                (Token::literal(Atom::Str(text), Span { start: i, end }), end)
            },
            None => {
                let text = substring_to_string(content, i, i + 1);
                (Token::unknown(Span { start: i, end: i + 1 }, text), i + 1)
            },
        }
    } else if ident_start(c) {
        let end = scan_class(chars, i, CharClass::IdentCont);
        let text = substring_to_string(content, i, end);
        if word_is_boolean(chars, i, end) {
            (Token::literal(Atom::Boolean(text), Span { start: i, end }), end)
        } else {
            (Token::identifier(Atom::Identifier(text), Span { start: i, end }), end)
        }
    } else if c == '=' {
        (Token::symbol(Atom::Assign, Span { start: i, end: i + 1 }), i + 1)
    } else if c == ',' {
        (Token::symbol(Atom::Comma, Span { start: i, end: i + 1 }), i + 1)
    } else if c == '(' {
        (Token::symbol(Atom::LParen, Span { start: i, end: i + 1 }), i + 1)
    } else if c == ')' {
        (Token::symbol(Atom::RParen, Span { start: i, end: i + 1 }), i + 1)
    } else if c == '+' {
        (Token::symbol(Atom::Plus, Span { start: i, end: i + 1 }), i + 1)
    } else if c == ':' && i + 1 < n && chars[i + 1] == ':' {
        (Token::symbol(Atom::TwoColons, Span { start: i, end: i + 2 }), i + 2)
    } else {
        let text = substring_to_string(content, i, i + 1);
        (Token::unknown(Span { start: i, end: i + 1 }, text), i + 1)
    }
}

/// Tokenizes the source text into its token sequence: whitespace is
/// skipped, every token is the longest match at its position, unmatched
/// text becomes unknown tokens, and the sequence ends with exactly one
/// end-of-input token whose span is the empty range at the end.
pub fn tokenize(content: &str) -> (tokens: Vec<Token>)
    ensures
        tokens.deep_view() == spec_tokenize(content@),
{
    let ghost s = content@;
    let chars = chars_of(content);
    let n = chars.len();
    let mut tokens: Vec<Token> = Vec::new();
    let mut i: usize = 0;
    while i < n
        invariant
            i <= n,
            n == s.len(),
            chars@ == s,
            content@ == s,
            spec_tokenize(s) == tokens.deep_view() + spec_tokenize_from(s, i as int),
        decreases n - i,
    {
        if whitespace_char(chars[i]) {
            i = i + 1;
        } else {
            let ghost prefix = tokens.deep_view();
            let (tok, end) = next_token(content, &chars, i);
            proof {
                lemma_spec_tokenize_from_step(s, i as int);
            }
            tokens.push(tok);
            proof {
                assert(tokens.deep_view() =~= prefix.push(tok@));
                assert(prefix.push(tok@) + spec_tokenize_from(s, end as int) =~= prefix + (seq![
                    token_at(s, i as int),
                ] + spec_tokenize_from(s, end as int)));
            }
            i = end;
        }
    }
    let ghost prefix = tokens.deep_view();
    let eof_tok = Token::eof(Span { start: n, end: n });
    tokens.push(eof_tok);
    proof {
        assert(tokens.deep_view() =~= prefix.push(eof_tok@));
        assert(prefix.push(eof_tok@) =~= prefix + spec_tokenize_from(s, n as int));
    }
    tokens
}

} // verus!
