use vstd::prelude::*;

use crate::atom::Symbol;
use crate::error::{Expectation, ExpectationV, ParseError, ParseErrorV};
use crate::token::{Token, TokenKind, TokenV};

verus! {

/// The parser's read cursor into the token sequence: one-token lookahead
/// through `peek`, and one-token consumption through `advance`.
pub struct ParserState {
    idx: usize,
    tokens: Vec<Token>,
}

impl ParserState {
    /// The mathematical token sequence the cursor reads.
    pub closed spec fn toks(self) -> Seq<TokenV> {
        self.tokens.deep_view()
    }

    /// The cursor position.
    pub closed spec fn pos(self) -> int {
        self.idx as int
    }

    /// The token under the cursor.
    pub open spec fn cur(self) -> TokenV {
        self.toks()[self.pos()]
    }

    /// The cursor is well formed when the sequence ends with the
    /// end-of-input token and the cursor stands on a token. No grammar rule
    /// consumes the end-of-input token, so the cursor never moves past it.
    pub open spec fn wf(self) -> bool {
        &&& self.toks().len() > 0
        &&& self.toks().last() is Eof
        &&& 0 <= self.pos() < self.toks().len()
    }

    /// Builds a cursor standing on the first token of the sequence.
    pub fn new(tokens: Vec<Token>) -> (state: Self)
        requires
            tokens.deep_view().len() > 0,
            tokens.deep_view().last() is Eof,
        ensures
            state.wf(),
            state.toks() == tokens.deep_view(),
            state.pos() == 0,
    {
        Self { idx: 0, tokens }
    }

    /// Looks at the token under the cursor without consuming it.
    pub fn peek(&self) -> (t: &Token)
        requires
            self.wf(),
        ensures
            t@ == self.cur(),
    {
        &self.tokens[self.idx]
    }

    /// Moves the cursor forward by exactly one token. The token consumed is
    /// never the end-of-input token, so the cursor lands on a token again.
    pub fn advance(&mut self)
        requires
            old(self).wf(),
            !(old(self).cur() is Eof),
        ensures
            final(self).wf(),
            final(self).toks() == old(self).toks(),
            final(self).pos() == old(self).pos() + 1,
    {
        let n = self.tokens.len();
        proof {
            assert(old(self).toks().last() == old(self).toks()[old(self).toks().len() - 1]);
            assert(n as int == old(self).toks().len());
        }
        self.idx = self.idx + 1;
    }

    /// Consumes the token under the cursor when it is an identifier, and
    /// reports what was found against the expected token kind otherwise.
    pub fn take_identifier(&mut self) -> (r: Result<Token, ParseError>)
        requires
            old(self).wf(),
        ensures
            final(self).wf(),
            final(self).toks() == old(self).toks(),
            match r {
                Ok(t) => old(self).cur() is Identifier && t@ == old(self).cur() && final(self).pos()
                    == old(self).pos() + 1,
                Err(e) => !(old(self).cur() is Identifier) && final(self).pos() == old(self).pos() && e@
                    == (ParseErrorV {
                    found: old(self).cur(),
                    expectation: ExpectationV::Token(seq![TokenKind::Identifier]),
                }),
            },
    {
        let tok = self.peek().clone();
        if tok.kind() == TokenKind::Identifier {
            self.advance();
            Ok(tok)
        } else {
            let kinds = vec![TokenKind::Identifier];
            proof {
                assert(kinds@ =~= seq![TokenKind::Identifier]);
            }
            Err(ParseError { found: tok, expectation: Expectation::Token(kinds) })
        }
    }

    /// Consumes the token under the cursor when it is exactly the symbol
    /// `symbol`, and reports what was found against the expected symbol
    /// otherwise.
    pub fn take_symbol(&mut self, symbol: Symbol) -> (r: Result<Token, ParseError>)
        requires
            old(self).wf(),
        ensures
            final(self).wf(),
            final(self).toks() == old(self).toks(),
            match r {
                Ok(t) => old(self).cur() matches TokenV::Symbol { symbol: found_sym, .. }
                    && found_sym == symbol && t@ == old(self).cur() && final(self).pos() == old(
                    self,
                ).pos() + 1,
                Err(e) => !(old(self).cur() matches TokenV::Symbol { symbol: found_sym, .. }
                    && found_sym == symbol) && final(self).pos() == old(self).pos() && e@
                    == (ParseErrorV {
                    found: old(self).cur(),
                    expectation: ExpectationV::Symbol(seq![symbol]),
                }),
            },
    {
        let tok = self.peek().clone();
        if tok.kind() == TokenKind::Symbol && tok.as_symbol() == symbol {
            self.advance();
            Ok(tok)
        } else {
            let symbols = vec![symbol];
            proof {
                assert(symbols@ =~= seq![symbol]);
            }
            Err(ParseError { found: tok, expectation: Expectation::Symbol(symbols) })
        }
    }
}

} // verus!
