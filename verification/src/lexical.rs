use vstd::prelude::*;

use crate::atom::{Radix, Symbol, symbol_text};
use crate::span::span_v;
use crate::token::{LiteralV, TokenV};

verus! {

// ---------------------------------------------------------------------------
// Character classes
// ---------------------------------------------------------------------------

/// Whitespace: space, newline, tab and form feed. Skipped by the tokenizer,
/// never emitted as a token.
pub open spec fn is_whitespace_char(c: char) -> bool {
    c == ' ' || c == '\n' || c == '\t' || c == '\u{000c}'
}

/// A decimal digit.
pub open spec fn is_dec_digit(c: char) -> bool {
    ('0' as u32) <= (c as u32) && (c as u32) <= ('9' as u32)
}

/// A binary digit.
pub open spec fn is_bin_digit(c: char) -> bool {
    c == '0' || c == '1'
}

/// A hexadecimal digit.
pub open spec fn is_hex_digit(c: char) -> bool {
    is_dec_digit(c) || (('a' as u32) <= (c as u32) && (c as u32) <= ('f' as u32)) || (('A' as u32)
        <= (c as u32) && (c as u32) <= ('F' as u32))
}

/// A character that may continue a decimal digit run: a digit or an
/// underscore.
pub open spec fn is_dec_cont(c: char) -> bool {
    is_dec_digit(c) || c == '_'
}

/// A character that may continue a binary digit run.
pub open spec fn is_bin_cont(c: char) -> bool {
    is_bin_digit(c) || c == '_'
}

/// A character that may continue a hexadecimal digit run.
pub open spec fn is_hex_cont(c: char) -> bool {
    is_hex_digit(c) || c == '_'
}

/// A character that may start an identifier: a letter or an underscore.
pub open spec fn is_ident_start(c: char) -> bool {
    (('a' as u32) <= (c as u32) && (c as u32) <= ('z' as u32)) || (('A' as u32) <= (c as u32) && (c
        as u32) <= ('Z' as u32)) || c == '_'
}

/// A character that may continue an identifier.
pub open spec fn is_ident_cont(c: char) -> bool {
    is_ident_start(c) || is_dec_digit(c)
}

/// A character that may follow a backslash inside a string literal.
pub open spec fn is_escape_char(c: char) -> bool {
    c == 't' || c == 'n' || c == 'r' || c == '"' || c == '\'' || c == 'u' || c == '\\'
}

/// The character classes the tokenizer scans maximal runs of.
#[derive(Debug, Clone, Copy, PartialEq, Eq, Structural)]
pub enum CharClass {
    /// Decimal digits and underscores.
    DecCont,
    /// Binary digits and underscores.
    BinCont,
    /// Hexadecimal digits and underscores.
    HexCont,
    /// Letters, digits and underscores.
    IdentCont,
}

/// The predicate a character class stands for.
pub open spec fn class_pred(cc: CharClass) -> spec_fn(char) -> bool {
    match cc {
        CharClass::DecCont => |c: char| is_dec_cont(c),
        CharClass::BinCont => |c: char| is_bin_cont(c),
        CharClass::HexCont => |c: char| is_hex_cont(c),
        CharClass::IdentCont => |c: char| is_ident_cont(c),
    }
}

// ---------------------------------------------------------------------------
// Scanners: maximal runs
// ---------------------------------------------------------------------------

/// The end of the maximal run of characters satisfying `p` that starts at
/// `i`: the first position at or after `i` whose character fails `p`, or the
/// end of the text.
pub open spec fn scan_while(s: Seq<char>, i: int, p: spec_fn(char) -> bool) -> int
    decreases s.len() - i,
{
    if !(0 <= i < s.len()) {
        i
    } else if p(s[i]) {
        scan_while(s, i + 1, p)
    } else {
        i
    }
}

/// What the maximal run delivers: it stays within the text, every character
/// inside it satisfies `p`, and it is maximal.
pub proof fn lemma_scan_while(s: Seq<char>, i: int, p: spec_fn(char) -> bool)
    requires
        0 <= i <= s.len(),
    ensures
        i <= scan_while(s, i, p) <= s.len(),
        forall|k: int| i <= k < scan_while(s, i, p) ==> p(#[trigger] s[k]),
        scan_while(s, i, p) == s.len() || !p(s[scan_while(s, i, p)]),
    decreases s.len() - i,
{
    if i < s.len() && p(s[i]) {
        lemma_scan_while(s, i + 1, p);
    }
}

/// The end of a string literal whose opening quote stands just before `i`:
/// the position after the closing quote, or nothing if the text ends, or an
/// invalid escape appears, before the string is closed.
pub open spec fn scan_string(s: Seq<char>, i: int) -> Option<int>
    decreases s.len() - i,
{
    if !(0 <= i < s.len()) {
        None
    } else if s[i] == '"' {
        Some(i + 1)
    } else if s[i] == '\\' {
        if i + 1 < s.len() && is_escape_char(s[i + 1]) {
            scan_string(s, i + 2)
        } else {
            None
        }
    } else {
        scan_string(s, i + 1)
    }
}

/// A found string end lies strictly after `i` and within the text.
pub proof fn lemma_scan_string(s: Seq<char>, i: int)
    requires
        0 <= i,
    ensures
        scan_string(s, i) matches Some(e) ==> i < e <= s.len(),
    decreases s.len() - i,
{
    if 0 <= i < s.len() && s[i] != '"' {
        if s[i] == '\\' {
            if i + 1 < s.len() && is_escape_char(s[i + 1]) {
                lemma_scan_string(s, i + 2);
            }
        } else {
            lemma_scan_string(s, i + 1);
        }
    }
}

// ---------------------------------------------------------------------------
// The token starting at a position
// ---------------------------------------------------------------------------

/// The exact spelling of the `true` keyword.
pub open spec fn true_text() -> Seq<char> {
    seq!['t', 'r', 'u', 'e']
}

/// The exact spelling of the `false` keyword.
pub open spec fn false_text() -> Seq<char> {
    seq!['f', 'a', 'l', 's', 'e']
}

/// The numeric literal starting at `i`, where `s[i]` is a decimal digit: a
/// binary or hexadecimal literal when the `0b`/`0x` prefix is followed by at
/// least one digit or underscore, else a floating literal when the decimal
/// digit run is followed by a dot, else a decimal literal.
pub open spec fn number_token_at(s: Seq<char>, i: int) -> TokenV
    recommends
        0 <= i < s.len(),
        is_dec_digit(s[i]),
{
    if s[i] == '0' && i + 2 < s.len() && (s[i + 1] == 'b' || s[i + 1] == 'B') && is_bin_cont(
        s[i + 2],
    ) {
        let end = scan_while(s, i + 2, class_pred(CharClass::BinCont));
        TokenV::Literal {
            literal: LiteralV::Integer { radix: Radix::Binary, text: s.subrange(i, end) },
            span: span_v(i, end),
        }
    } else if s[i] == '0' && i + 2 < s.len() && (s[i + 1] == 'x' || s[i + 1] == 'X') && is_hex_cont(
        s[i + 2],
    ) {
        let end = scan_while(s, i + 2, class_pred(CharClass::HexCont));
        TokenV::Literal {
            literal: LiteralV::Integer { radix: Radix::Hexadecimal, text: s.subrange(i, end) },
            span: span_v(i, end),
        }
    } else {
        let d = scan_while(s, i + 1, class_pred(CharClass::DecCont));
        if d < s.len() && s[d] == '.' {
            let end = scan_while(s, d + 1, class_pred(CharClass::DecCont));
            TokenV::Literal {
                literal: LiteralV::Float { text: s.subrange(i, end) },
                span: span_v(i, end),
            }
        } else {
            TokenV::Literal {
                literal: LiteralV::Integer { radix: Radix::Decimal, text: s.subrange(i, d) },
                span: span_v(i, d),
            }
        }
    }
}

/// The token starting at a dot: a floating literal when at least one digit
/// stands in the digit run after the dot, else an unknown token covering the
/// dot alone.
pub open spec fn dot_token_at(s: Seq<char>, i: int) -> TokenV
    recommends
        0 <= i < s.len(),
        s[i] == '.',
{
    let end = scan_while(s, i + 1, class_pred(CharClass::DecCont));
    if exists|k: int| i + 1 <= k < end && is_dec_digit(#[trigger] s[k]) {
        TokenV::Literal { literal: LiteralV::Float { text: s.subrange(i, end) }, span: span_v(i, end) }
    } else {
        TokenV::Unknown { text: s.subrange(i, i + 1), span: span_v(i, i + 1) }
    }
}

/// The token starting at a double quote: a string literal kept raw when the
/// string is properly closed, else an unknown token covering the quote
/// alone.
pub open spec fn string_token_at(s: Seq<char>, i: int) -> TokenV
    recommends
        0 <= i < s.len(),
        s[i] == '"',
{
    match scan_string(s, i + 1) {
        Some(end) => TokenV::Literal {
            literal: LiteralV::Str { text: s.subrange(i, end) },
            span: span_v(i, end),
        },
        None => TokenV::Unknown { text: s.subrange(i, i + 1), span: span_v(i, i + 1) },
    }
}

/// The token starting at an identifier-start character: the maximal
/// identifier run, classified as a boolean literal when it spells exactly
/// `true` or `false` and as an identifier otherwise.
pub open spec fn word_token_at(s: Seq<char>, i: int) -> TokenV
    recommends
        0 <= i < s.len(),
        is_ident_start(s[i]),
{
    let end = scan_while(s, i, class_pred(CharClass::IdentCont));
    let text = s.subrange(i, end);
    if text == true_text() || text == false_text() {
        TokenV::Literal { literal: LiteralV::Boolean { text }, span: span_v(i, end) }
    } else {
        TokenV::Identifier { name: text, span: span_v(i, end) }
    }
}

/// The token starting at the non-whitespace position `i`: the longest match
/// among the lexical rules, or an unknown token covering `s[i]` alone when
/// no rule matches.
pub open spec fn token_at(s: Seq<char>, i: int) -> TokenV
    recommends
        0 <= i < s.len(),
        !is_whitespace_char(s[i]),
{
    let c = s[i];
    if is_dec_digit(c) {
        number_token_at(s, i)
    } else if c == '.' {
        dot_token_at(s, i)
    } else if c == '"' {
        string_token_at(s, i)
    } else if is_ident_start(c) {
        word_token_at(s, i)
    } else if c == '=' {
        TokenV::Symbol { symbol: Symbol::Assign, span: span_v(i, i + 1) }
    } else if c == ',' {
        TokenV::Symbol { symbol: Symbol::Comma, span: span_v(i, i + 1) }
    } else if c == '(' {
        TokenV::Symbol { symbol: Symbol::LParen, span: span_v(i, i + 1) }
    } else if c == ')' {
        TokenV::Symbol { symbol: Symbol::RParen, span: span_v(i, i + 1) }
    } else if c == '+' {
        TokenV::Symbol { symbol: Symbol::Plus, span: span_v(i, i + 1) }
    } else if c == ':' && i + 1 < s.len() && s[i + 1] == ':' {
        TokenV::Symbol { symbol: Symbol::TwoColons, span: span_v(i, i + 2) }
    } else {
        TokenV::Unknown { text: s.subrange(i, i + 1), span: span_v(i, i + 1) }
    }
}

/// What every token delivers: it starts at its position, it covers at least
/// one character, it stays within the text, it is not an end-of-input
/// marker, and its canonical text is exactly the slice of source it covers.
pub proof fn lemma_token_at(s: Seq<char>, i: int)
    requires
        0 <= i < s.len(),
        !is_whitespace_char(s[i]),
    ensures
        token_at(s, i).span().start == i,
        i < token_at(s, i).span().end <= s.len(),
        !(token_at(s, i) is Eof),
        token_at(s, i).text() == s.subrange(i, token_at(s, i).span().end),
{
    let c = s[i];
    if is_dec_digit(c) {
        lemma_scan_while(s, i + 1, class_pred(CharClass::DecCont));
        if i + 2 < s.len() {
            lemma_scan_while(s, i + 2, class_pred(CharClass::BinCont));
            lemma_scan_while(s, i + 2, class_pred(CharClass::HexCont));
        }
        let d = scan_while(s, i + 1, class_pred(CharClass::DecCont));
        if d < s.len() && s[d] == '.' {
            lemma_scan_while(s, d + 1, class_pred(CharClass::DecCont));
        }
    } else if c == '.' {
        lemma_scan_while(s, i + 1, class_pred(CharClass::DecCont));
    } else if c == '"' {
        lemma_scan_string(s, i + 1);
    } else if is_ident_start(c) {
        lemma_scan_while(s, i, class_pred(CharClass::IdentCont));
        assert(class_pred(CharClass::IdentCont)(s[i]));
    } else if c == '=' || c == ',' || c == '(' || c == ')' || c == '+' {
        assert(token_at(s, i).text() =~= s.subrange(i, i + 1));
    } else if c == ':' && i + 1 < s.len() && s[i + 1] == ':' {
        assert(token_at(s, i).text() =~= s.subrange(i, i + 2));
    }
}

// ---------------------------------------------------------------------------
// The token sequence of a source text
// ---------------------------------------------------------------------------

/// The tokens of `s` from position `i` on: whitespace is skipped, each token
/// is the longest match at its position, and the sequence ends with exactly
/// one end-of-input token whose span is the empty range at the end.
pub open spec fn spec_tokenize_from(s: Seq<char>, i: int) -> Seq<TokenV>
    decreases s.len() - i,
{
    if !(0 <= i < s.len()) {
        seq![TokenV::Eof { span: span_v(s.len() as int, s.len() as int) }]
    } else if is_whitespace_char(s[i]) {
        spec_tokenize_from(s, i + 1)
    } else {
        let t = token_at(s, i);
        let j = t.span().end;
        let j1 = if j <= i {
            i + 1
        } else if j > s.len() {
            s.len() as int
        } else {
            j
        };
        seq![t] + spec_tokenize_from(s, j1)
    }
}

/// The token sequence of the source text `s`.
pub open spec fn spec_tokenize(s: Seq<char>) -> Seq<TokenV> {
    spec_tokenize_from(s, 0)
}

/// At a non-whitespace position the token sequence is the token at that
/// position followed by the tokens after it.
pub proof fn lemma_spec_tokenize_from_step(s: Seq<char>, i: int)
    requires
        0 <= i < s.len(),
        !is_whitespace_char(s[i]),
    ensures
        spec_tokenize_from(s, i) == seq![token_at(s, i)] + spec_tokenize_from(
            s,
            token_at(s, i).span().end,
        ),
{
    lemma_token_at(s, i);
}

// ---------------------------------------------------------------------------
// Laws of the token sequence
// ---------------------------------------------------------------------------

/// Every fact the token sequence guarantees position by position: it holds
/// at least the end-of-input token; its last token is the end-of-input
/// token, whose span is the empty range at the end, and no earlier token is
/// one; every token lies within the text, at or after the position the
/// sequence was read from; consecutive tokens do not overlap; and every
/// token's canonical text is the exact slice of source its span covers.
proof fn lemma_tokens_from_props(s: Seq<char>, i: int)
    requires
        0 <= i <= s.len(),
    ensures
        spec_tokenize_from(s, i).len() >= 1,
        spec_tokenize_from(s, i).last() == (TokenV::Eof {
            span: span_v(s.len() as int, s.len() as int),
        }),
        forall|k: int|
            0 <= k < spec_tokenize_from(s, i).len() - 1 ==> !(#[trigger] spec_tokenize_from(s, i)[k]
                is Eof),
        forall|k: int|
            0 <= k < spec_tokenize_from(s, i).len() ==> {
                let t = #[trigger] spec_tokenize_from(s, i)[k];
                i <= t.span().start <= t.span().end <= s.len() && t.text() == s.subrange(
                    t.span().start,
                    t.span().end,
                )
            },
        forall|k: int|
            0 <= k < spec_tokenize_from(s, i).len() - 1 ==> (#[trigger] spec_tokenize_from(s, i)[k]).span().end
                <= spec_tokenize_from(s, i)[k + 1].span().start,
    decreases s.len() - i,
{
    let toks = spec_tokenize_from(s, i);
    if i == s.len() {
        assert(toks[0].text() =~= s.subrange(i, i));
    } else if is_whitespace_char(s[i]) {
        lemma_tokens_from_props(s, i + 1);
    } else {
        lemma_token_at(s, i);
        let t0 = token_at(s, i);
        let e0 = t0.span().end;
        let rest = spec_tokenize_from(s, e0);
        lemma_tokens_from_props(s, e0);
        assert(toks == seq![t0] + rest);
        assert forall|k: int| 0 <= k < toks.len() implies {
            let t = #[trigger] toks[k];
            i <= t.span().start <= t.span().end <= s.len() && t.text() == s.subrange(
                t.span().start,
                t.span().end,
            )
        } by {
            if k > 0 {
                assert(toks[k] == rest[k - 1]);
            }
        }
        assert forall|k: int| 0 <= k < toks.len() - 1 implies !(#[trigger] toks[k] is Eof) by {
            if k > 0 {
                assert(toks[k] == rest[k - 1]);
            }
        }
        assert forall|k: int|
            0 <= k < toks.len() - 1 implies (#[trigger] toks[k]).span().end <= toks[k
            + 1].span().start by {
            if k == 0 {
                assert(toks[1] == rest[0]);
            } else {
                assert(toks[k] == rest[k - 1]);
                assert(toks[k + 1] == rest[k]);
            }
        }
    }
}

/// The shape every token sequence has: it ends with exactly one
/// end-of-input token, whose span is the empty range at the end of the
/// input, and the spans of its tokens are non-decreasing and
/// non-overlapping within the text.
pub proof fn lemma_tokenize_shape(s: Seq<char>)
    ensures
        spec_tokenize(s).len() >= 1,
        spec_tokenize(s).last() == (TokenV::Eof { span: span_v(s.len() as int, s.len() as int) }),
        forall|k: int|
            0 <= k < spec_tokenize(s).len() - 1 ==> !(#[trigger] spec_tokenize(s)[k] is Eof),
        forall|k: int|
            0 <= k < spec_tokenize(s).len() ==> {
                let t = #[trigger] spec_tokenize(s)[k];
                0 <= t.span().start <= t.span().end <= s.len()
            },
        forall|k: int|
            0 <= k < spec_tokenize(s).len() - 1 ==> (#[trigger] spec_tokenize(s)[k]).span().end
                <= spec_tokenize(s)[k + 1].span().start,
{
    lemma_tokens_from_props(s, 0);
}

/// Re-serializing any token reproduces the exact slice of source it was
/// produced from: every token's canonical text — an identifier's name, a
/// literal's raw text, a symbol's one spelling, an unknown token's slice —
/// equals the source text its span covers.
pub proof fn lemma_tokenize_text_round_trip(s: Seq<char>, k: int)
    requires
        0 <= k < spec_tokenize(s).len(),
    ensures
        spec_tokenize(s)[k].text() == s.subrange(
            spec_tokenize(s)[k].span().start,
            spec_tokenize(s)[k].span().end,
        ),
{
    lemma_tokens_from_props(s, 0);
}

/// Tokenizing the canonical spelling of a symbol yields exactly that symbol
/// followed by the end-of-input token.
pub proof fn lemma_tokenize_symbol_spelling(sym: Symbol)
    ensures
        spec_tokenize(symbol_text(sym)) == seq![
            TokenV::Symbol { symbol: sym, span: span_v(0, symbol_text(sym).len() as int) },
            TokenV::Eof {
                span: span_v(symbol_text(sym).len() as int, symbol_text(sym).len() as int),
            },
        ],
{
    let s = symbol_text(sym);
    lemma_token_at(s, 0);
    assert(spec_tokenize(s) =~= seq![token_at(s, 0)] + spec_tokenize_from(s, s.len() as int));
}

/// Tokenizing an input of whitespace alone yields exactly one end-of-input
/// token whose span is the empty range at the end of the input.
pub proof fn lemma_tokenize_whitespace_only(s: Seq<char>)
    requires
        forall|k: int| 0 <= k < s.len() ==> is_whitespace_char(#[trigger] s[k]),
    ensures
        spec_tokenize(s) == seq![TokenV::Eof { span: span_v(s.len() as int, s.len() as int) }],
{
    lemma_tokenize_whitespace_from(s, 0);
}

proof fn lemma_tokenize_whitespace_from(s: Seq<char>, i: int)
    requires
        0 <= i <= s.len(),
        forall|k: int| i <= k < s.len() ==> is_whitespace_char(#[trigger] s[k]),
    ensures
        spec_tokenize_from(s, i) == seq![
            TokenV::Eof { span: span_v(s.len() as int, s.len() as int) },
        ],
    decreases s.len() - i,
{
    if i < s.len() {
        lemma_tokenize_whitespace_from(s, i + 1);
    }
}

/// A decimal integer literal text: a digit followed by digits and
/// underscores.
pub open spec fn is_decimal_literal_text(s: Seq<char>) -> bool {
    s.len() >= 1 && is_dec_digit(s[0]) && forall|k: int|
        1 <= k < s.len() ==> is_dec_cont(#[trigger] s[k])
}

/// A binary integer literal text: `0b` or `0B`, then at least one binary
/// digit or underscore.
pub open spec fn is_binary_literal_text(s: Seq<char>) -> bool {
    s.len() >= 3 && s[0] == '0' && (s[1] == 'b' || s[1] == 'B') && forall|k: int|
        2 <= k < s.len() ==> is_bin_cont(#[trigger] s[k])
}

/// A hexadecimal integer literal text: `0x` or `0X`, then at least one
/// hexadecimal digit or underscore.
pub open spec fn is_hex_literal_text(s: Seq<char>) -> bool {
    s.len() >= 3 && s[0] == '0' && (s[1] == 'x' || s[1] == 'X') && forall|k: int|
        2 <= k < s.len() ==> is_hex_cont(#[trigger] s[k])
}

/// The radix an integer literal text is written in.
pub open spec fn int_literal_radix(s: Seq<char>) -> Radix {
    if is_binary_literal_text(s) {
        Radix::Binary
    } else if is_hex_literal_text(s) {
        Radix::Hexadecimal
    } else {
        Radix::Decimal
    }
}

/// Tokenizing a valid integer literal text of any radix yields exactly one
/// integer literal token, classified with that radix and carrying the text
/// unchanged — underscores and radix prefix included — followed by the
/// end-of-input token.
pub proof fn lemma_tokenize_integer_literal(s: Seq<char>)
    requires
        is_decimal_literal_text(s) || is_binary_literal_text(s) || is_hex_literal_text(s),
    ensures
        spec_tokenize(s) == seq![
            TokenV::Literal {
                literal: LiteralV::Integer { radix: int_literal_radix(s), text: s },
                span: span_v(0, s.len() as int),
            },
            TokenV::Eof { span: span_v(s.len() as int, s.len() as int) },
        ],
{
    let t = token_at(s, 0);
    lemma_token_at(s, 0);
    if is_binary_literal_text(s) {
        let end = scan_while(s, 2, class_pred(CharClass::BinCont));
        lemma_scan_while(s, 2, class_pred(CharClass::BinCont));
        assert(end == s.len());
        assert(s.subrange(0, end) =~= s);
    } else if is_hex_literal_text(s) {
        let end = scan_while(s, 2, class_pred(CharClass::HexCont));
        lemma_scan_while(s, 2, class_pred(CharClass::HexCont));
        assert(end == s.len());
        assert(s.subrange(0, end) =~= s);
    } else {
        assert(!is_binary_literal_text(s) && !is_hex_literal_text(s));
        if s.len() >= 3 && s[0] == '0' && (s[1] == 'b' || s[1] == 'B') {
            assert(is_dec_cont(s[1]));
            assert(false);
        }
        if s.len() >= 3 && s[0] == '0' && (s[1] == 'x' || s[1] == 'X') {
            assert(is_dec_cont(s[1]));
            assert(false);
        }
        let d = scan_while(s, 1, class_pred(CharClass::DecCont));
        lemma_scan_while(s, 1, class_pred(CharClass::DecCont));
        assert(d == s.len());
        assert(s.subrange(0, d) =~= s);
    }
    assert(spec_tokenize(s) =~= seq![t] + spec_tokenize_from(s, s.len() as int));
}

// ---------------------------------------------------------------------------
// Executable recognizers
// ---------------------------------------------------------------------------

/// Decides whether `c` is whitespace.
pub fn whitespace_char(c: char) -> (b: bool)
    ensures
        b == is_whitespace_char(c),
{
    c == ' ' || c == '\n' || c == '\t' || c == '\u{000c}'
}

/// Decides whether `c` is a decimal digit.
pub fn dec_digit(c: char) -> (b: bool)
    ensures
        b == is_dec_digit(c),
{
    ('0' as u32) <= (c as u32) && (c as u32) <= ('9' as u32)
}

/// Decides whether `c` may start an identifier.
pub fn ident_start(c: char) -> (b: bool)
    ensures
        b == is_ident_start(c),
{
    (('a' as u32) <= (c as u32) && (c as u32) <= ('z' as u32)) || (('A' as u32) <= (c as u32) && (c
        as u32) <= ('Z' as u32)) || c == '_'
}

/// Decides whether `c` may follow a backslash inside a string literal.
pub fn escape_char(c: char) -> (b: bool)
    ensures
        b == is_escape_char(c),
{
    c == 't' || c == 'n' || c == 'r' || c == '"' || c == '\'' || c == 'u' || c == '\\'
}

/// Decides whether `c` belongs to the character class `cc`.
pub fn char_in_class(c: char, cc: CharClass) -> (b: bool)
    ensures
        b == class_pred(cc)(c),
{
    match cc {
        CharClass::DecCont => dec_digit(c) || c == '_',
        CharClass::BinCont => c == '0' || c == '1' || c == '_',
        CharClass::HexCont => dec_digit(c) || (('a' as u32) <= (c as u32) && (c as u32) <= ('f'
            as u32)) || (('A' as u32) <= (c as u32) && (c as u32) <= ('F' as u32)) || c == '_',
        CharClass::IdentCont => ident_start(c) || dec_digit(c),
    }
}

/// Scans the maximal run of characters of class `cc` starting at `start`.
pub fn scan_class(chars: &Vec<char>, start: usize, cc: CharClass) -> (end: usize)
    requires
        start <= chars@.len(),
    ensures
        end as int == scan_while(chars@, start as int, class_pred(cc)),
        start <= end <= chars@.len(),
{
    proof {
        lemma_scan_while(chars@, start as int, class_pred(cc));
    }
    let n = chars.len();
    let mut i = start;
    while i < n && char_in_class(chars[i], cc)
        invariant
            start <= i <= n,
            n == chars@.len(),
            scan_while(chars@, start as int, class_pred(cc)) == scan_while(
                chars@,
                i as int,
                class_pred(cc),
            ),
        decreases n - i,
    {
        i = i + 1;
    }
    i
}

/// Scans for the end of a string literal whose opening quote stands just
/// before `start`, returning the position after the closing quote, or
/// nothing when the string is never properly closed.
pub fn scan_string_end(chars: &Vec<char>, start: usize) -> (r: Option<usize>)
    requires
        start <= chars@.len(),
    ensures
        match r {
            Some(e) => scan_string(chars@, start as int) == Some(e as int) && start < e
                <= chars@.len(),
            None => scan_string(chars@, start as int) is None,
        },
{
    proof {
        lemma_scan_string(chars@, start as int);
    }
    let n = chars.len();
    let mut i = start;
    loop
        invariant
            start <= i <= n,
            n == chars@.len(),
            scan_string(chars@, start as int) == scan_string(chars@, i as int),
        decreases n - i,
    {
        if i >= n {
            return None;
        }
        let c = chars[i];
        if c == '"' {
            proof {
                lemma_scan_string(chars@, start as int);
            }
            return Some(i + 1);
        }
        if c == '\\' {
            if i + 1 < n && escape_char(chars[i + 1]) {
                i = i + 2;
            } else {
                return None;
            }
        } else {
            i = i + 1;
        }
    }
}

/// Decides whether some decimal digit stands in `chars[lo..hi]`.
pub fn range_has_dec_digit(chars: &Vec<char>, lo: usize, hi: usize) -> (b: bool)
    requires
        lo <= hi <= chars@.len(),
    ensures
        b == exists|k: int| lo <= k < hi && is_dec_digit(#[trigger] chars@[k]),
{
    let mut i = lo;
    while i < hi
        invariant
            lo <= i <= hi <= chars@.len(),
            forall|k: int| lo <= k < i ==> !is_dec_digit(#[trigger] chars@[k]),
        decreases hi - i,
    {
        if dec_digit(chars[i]) {
            proof {
                assert(is_dec_digit(chars@[i as int]));
            }
            return true;
        }
        i = i + 1;
    }
    false
}

/// Decides whether `chars[lo..hi]` spells exactly `true` or `false`.
pub fn word_is_boolean(chars: &Vec<char>, lo: usize, hi: usize) -> (b: bool)
    requires
        lo <= hi <= chars@.len(),
    ensures
        b == (chars@.subrange(lo as int, hi as int) == true_text() || chars@.subrange(
            lo as int,
            hi as int,
        ) == false_text()),
{
    let ghost sub = chars@.subrange(lo as int, hi as int);
    let len = hi - lo;
    if len == 4 {
        let b = chars[lo] == 't' && chars[lo + 1] == 'r' && chars[lo + 2] == 'u' && chars[lo + 3]
            == 'e';
        proof {
            assert(sub.len() == 4);
            assert(false_text().len() == 5);
            assert(sub != false_text());
            if b {
                assert(sub =~= true_text());
            } else {
                if sub == true_text() {
                    assert(chars@[lo as int] == sub[0] && sub[0] == 't');
                    assert(chars@[lo + 1] == sub[1] && sub[1] == 'r');
                    assert(chars@[lo + 2] == sub[2] && sub[2] == 'u');
                    assert(chars@[lo + 3] == sub[3] && sub[3] == 'e');
                    assert(false);
                }
            }
        }
        b
    } else if len == 5 {
        let b = chars[lo] == 'f' && chars[lo + 1] == 'a' && chars[lo + 2] == 'l' && chars[lo + 3]
            == 's' && chars[lo + 4] == 'e';
        proof {
            assert(sub.len() == 5);
            assert(true_text().len() == 4);
            assert(sub != true_text());
            if b {
                assert(sub =~= false_text());
            } else {
                if sub == false_text() {
                    assert(chars@[lo as int] == sub[0] && sub[0] == 'f');
                    assert(chars@[lo + 1] == sub[1] && sub[1] == 'a');
                    assert(chars@[lo + 2] == sub[2] && sub[2] == 'l');
                    assert(chars@[lo + 3] == sub[3] && sub[3] == 's');
                    assert(chars@[lo + 4] == sub[4] && sub[4] == 'e');
                    assert(false);
                }
            }
        }
        b
    } else {
        proof {
            assert(sub.len() == hi - lo);
            assert(sub != true_text() && sub != false_text());
        }
        false
    }
}

/// Collects the characters of `s` into a vector.
pub fn chars_of(s: &str) -> (v: Vec<char>)
    ensures
        v@ == s@,
{
    let n = s.unicode_len();
    let mut v: Vec<char> = Vec::new();
    let mut i: usize = 0;
    while i < n
        invariant
            i <= n,
            n == s@.len(),
            v@ == s@.subrange(0, i as int),
        decreases n - i,
    {
        let c = s.get_char(i);
        v.push(c);
        proof {
            assert(v@ =~= s@.subrange(0, i + 1));
        }
        i = i + 1;
    }
    proof {
        assert(v@ =~= s@);
    }
    v
}

} // verus!
