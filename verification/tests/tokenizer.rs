use lupin::atom::{Atom, Radix, Symbol};
use lupin::error::{TokenizerError, TokenizerErrorKind};
use lupin::span::Span;
use lupin::token::{Token, TokenKind, tokenize};

fn single_literal(src: &str) -> Atom {
    let tokens = tokenize(src);
    assert_eq!(tokens.len(), 2, "expected one literal and eof for {:?}", src);
    assert_eq!(tokens[0].kind(), TokenKind::Literal, "for {:?}", src);
    assert_eq!(tokens[1].kind(), TokenKind::Eof);
    tokens[0].as_literal().clone()
}

#[test]
fn floats() {
    let candidates = ["1.", "24_.", "3_49.", "5.6", "7_8.9", ".0", "._1", ".0_12"];
    for candidate in candidates {
        match single_literal(candidate) {
            Atom::Float(text) => assert_eq!(text.as_str(), candidate),
            other => panic!("expected a float for {:?}, found {:?}", candidate, other),
        }
    }
}

#[test]
fn integer_representations() {
    let candidates = [
        ("100", Radix::Decimal),
        ("0b1011", Radix::Binary),
        ("0b1011_1010", Radix::Binary),
        ("0x1a", Radix::Hexadecimal),
        ("0x1a_2b", Radix::Hexadecimal),
    ];
    for (candidate, expected_radix) in candidates {
        match single_literal(candidate) {
            Atom::Integer(radix, text) => {
                assert_eq!(radix, expected_radix, "for {:?}", candidate);
                assert_eq!(text.as_str(), candidate);
            }
            other => panic!("expected an integer for {:?}, found {:?}", candidate, other),
        }
    }
}

#[test]
fn whitespace_only_yields_one_empty_eof() {
    let tokens = tokenize(" \t\n\u{000c} ");
    assert_eq!(tokens.len(), 1);
    assert_eq!(tokens[0].kind(), TokenKind::Eof);
    assert_eq!(tokens[0].span(), Span { start: 5, end: 5 });

    let tokens = tokenize("");
    assert_eq!(tokens.len(), 1);
    assert_eq!(tokens[0].kind(), TokenKind::Eof);
    assert_eq!(tokens[0].span(), Span { start: 0, end: 0 });
}

#[test]
fn symbols_round_trip_through_their_spelling() {
    let symbols = [
        Symbol::Assign,
        Symbol::Comma,
        Symbol::LParen,
        Symbol::RParen,
        Symbol::Plus,
        Symbol::TwoColons,
    ];
    for symbol in symbols {
        let spelling = symbol.text();
        let tokens = tokenize(spelling);
        assert_eq!(tokens.len(), 2);
        assert_eq!(tokens[0].kind(), TokenKind::Symbol);
        assert_eq!(tokens[0].as_symbol(), symbol);
        let span = tokens[0].span();
        assert_eq!(span, Span { start: 0, end: spelling.len() });
        // re-serializing reproduces the exact substring that produced it
        assert_eq!(&spelling[span.start..span.end], spelling);
    }
}

#[test]
fn every_token_text_matches_its_span() {
    let src = "i32 foo = 0x1f_a0 + (bar, \"s\\t\") :: true .5 %";
    let tokens = tokenize(src);
    assert_eq!(tokens.last().unwrap().kind(), TokenKind::Eof);
    let mut previous_end = 0;
    for token in &tokens {
        let span = token.span();
        assert!(previous_end <= span.start && span.start <= span.end && span.end <= src.len());
        previous_end = span.end;
        let slice = &src[span.start..span.end];
        match token.kind() {
            TokenKind::Identifier => assert_eq!(token.as_identifier().as_str(), slice),
            TokenKind::Symbol => assert_eq!(token.as_symbol().text(), slice),
            TokenKind::Literal => match token.as_literal() {
                Atom::Integer(_, text) => assert_eq!(text.as_str(), slice),
                Atom::Float(text) => assert_eq!(text.as_str(), slice),
                Atom::Str(text) => assert_eq!(text.as_str(), slice),
                Atom::Boolean(text) => assert_eq!(text.as_str(), slice),
                other => panic!("a literal token carries a literal atom, found {:?}", other),
            },
            TokenKind::Eof => assert_eq!(slice, ""),
            TokenKind::Unknown => assert_eq!(token.as_unknown().as_str(), slice),
        }
    }
}

#[test]
fn keywords_lex_as_identifiers_and_booleans_as_literals() {
    let tokens = tokenize("i32 var true false truex");
    assert_eq!(tokens.len(), 6);
    assert_eq!(tokens[0].kind(), TokenKind::Identifier);
    assert_eq!(tokens[0].as_identifier().as_str(), "i32");
    assert_eq!(tokens[1].kind(), TokenKind::Identifier);
    assert_eq!(tokens[2].kind(), TokenKind::Literal);
    match tokens[2].as_literal() {
        Atom::Boolean(text) => assert_eq!(text.as_str(), "true"),
        other => panic!("expected a boolean, found {:?}", other),
    }
    assert_eq!(tokens[3].kind(), TokenKind::Literal);
    match tokens[3].as_literal() {
        Atom::Boolean(text) => assert_eq!(text.as_str(), "false"),
        other => panic!("expected a boolean, found {:?}", other),
    }
    assert_eq!(tokens[4].kind(), TokenKind::Identifier);
    assert_eq!(tokens[4].as_identifier().as_str(), "truex");
}

#[test]
fn unmatched_text_becomes_unknown_tokens() {
    let tokens = tokenize("&&");
    assert_eq!(tokens.len(), 3);
    assert_eq!(tokens[0].kind(), TokenKind::Unknown);
    assert_eq!(tokens[0].as_unknown().as_str(), "&");
    assert_eq!(tokens[0].span(), Span { start: 0, end: 1 });
    assert_eq!(tokens[1].kind(), TokenKind::Unknown);
    assert_eq!(tokens[1].as_unknown().as_str(), "&");
    assert_eq!(tokens[1].span(), Span { start: 1, end: 2 });
    assert_eq!(tokens[2].kind(), TokenKind::Eof);

    // a single colon is not a symbol: only the two-colon form is
    let tokens = tokenize(":");
    assert_eq!(tokens[0].kind(), TokenKind::Unknown);
    assert_eq!(tokens[0].as_unknown().as_str(), ":");

    // a dot with no digit next to it matches no rule
    let tokens = tokenize("._");
    assert_eq!(tokens[0].kind(), TokenKind::Unknown);
    assert_eq!(tokens[0].as_unknown().as_str(), ".");
    assert_eq!(tokens[1].kind(), TokenKind::Identifier);
    assert_eq!(tokens[1].as_identifier().as_str(), "_");
}

#[test]
fn string_literals_are_kept_raw() {
    let tokens = tokenize("\"hello\\tworld\"");
    assert_eq!(tokens.len(), 2);
    match tokens[0].as_literal() {
        Atom::Str(text) => assert_eq!(text.as_str(), "\"hello\\tworld\""),
        other => panic!("expected a string, found {:?}", other),
    }

    // an unterminated string matches no rule: its quote is unknown text
    let tokens = tokenize("\"abc");
    assert_eq!(tokens[0].kind(), TokenKind::Unknown);
    assert_eq!(tokens[0].as_unknown().as_str(), "\"");
    assert_eq!(tokens[1].kind(), TokenKind::Identifier);
    assert_eq!(tokens[1].as_identifier().as_str(), "abc");
}

#[test]
fn longest_match_decides_numbers() {
    // a float outranks the plain decimal at the same position
    match single_literal("5.6") {
        Atom::Float(text) => assert_eq!(text.as_str(), "5.6"),
        other => panic!("expected a float, found {:?}", other),
    }
    // a binary run ends at the first character outside its digits
    let tokens = tokenize("0b12");
    match tokens[0].as_literal() {
        Atom::Integer(radix, text) => {
            assert_eq!(*radix, Radix::Binary);
            assert_eq!(text.as_str(), "0b1");
        }
        other => panic!("expected an integer, found {:?}", other),
    }
    match tokens[1].as_literal() {
        Atom::Integer(radix, text) => {
            assert_eq!(*radix, Radix::Decimal);
            assert_eq!(text.as_str(), "2");
        }
        other => panic!("expected an integer, found {:?}", other),
    }
}

#[test]
fn spans_are_contiguous_over_skipped_whitespace() {
    let tokens = tokenize("a = 3");
    let spans: Vec<Span> = tokens.iter().map(|t| t.span()).collect();
    assert_eq!(spans[0], Span { start: 0, end: 1 });
    assert_eq!(spans[1], Span { start: 2, end: 3 });
    assert_eq!(spans[2], Span { start: 4, end: 5 });
    assert_eq!(spans[3], Span { start: 5, end: 5 });
}

#[test]
fn tokenizer_error_carries_its_parts() {
    let tokens: Vec<Token> = tokenize("%");
    assert_eq!(tokens[0].kind(), TokenKind::Unknown);
    let error = TokenizerError::new(
        TokenizerErrorKind::UnknownToken,
        tokens[0].span(),
        tokens[0].as_unknown().clone(),
    );
    assert_eq!(error.kind(), TokenizerErrorKind::UnknownToken);
    assert_eq!(error.span(), Span { start: 0, end: 1 });
    assert_eq!(error.slice().as_str(), "%");
}
