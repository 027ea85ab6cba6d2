use vstd::prelude::*;

use crate::atom::Symbol;
use crate::error::{ExpectationV, ParseErrorV};
use crate::parsers::{AssignmentV, DelimitedPunctuatedV, ExprV, FnArgV, FuncDefV, TypeV};
use crate::token::{TokenKind, TokenV};

verus! {

// ---------------------------------------------------------------------------
// The grammar, rule by rule
//
// Each rule reads the token sequence `toks` from position `i` and either
// builds its node, returning it with the position just after the tokens it
// consumed, or fails with the first error. The executable parser is proved
// to return exactly these results.
// ---------------------------------------------------------------------------

/// Type ::= identifier. Any identifier-shaped token is accepted; validity of
/// the name as a type is deferred to later stages.
pub open spec fn spec_parse_type(toks: Seq<TokenV>, i: int) -> Result<(TypeV, int), ParseErrorV>
    recommends
        0 <= i < toks.len(),
{
    if toks[i] is Identifier {
        Ok((TypeV { name: toks[i] }, i + 1))
    } else {
        Err(
            ParseErrorV {
                found: toks[i],
                expectation: ExpectationV::Token(seq![TokenKind::Identifier]),
            },
        )
    }
}

/// Expression ::= first-token dispatch on parenthesis, name or literal,
/// followed by the binary-operator continuation. Any other first token —
/// the end of the input and unknown tokens included — is a hard error
/// naming the acceptable token kinds.
pub open spec fn spec_parse_expr(toks: Seq<TokenV>, i: int) -> Result<(ExprV, int), ParseErrorV>
    recommends
        0 <= i < toks.len(),
    decreases toks.len() - i, 1int,
{
    if !(0 <= i < toks.len()) {
        Err(arbitrary())
    } else {
        match toks[i] {
            TokenV::Symbol { symbol, .. } => {
                if symbol == Symbol::LParen {
                    match spec_parse_expr(toks, i + 1) {
                        Ok((inner, j0)) => {
                            // a successful inner expression always consumes at
                            // least one token, so this bound never truncates
                            let j = if j0 <= i + 1 {
                                i + 2
                            } else {
                                j0
                            };
                            if j < toks.len() && (toks[j] matches TokenV::Symbol {
                                symbol: Symbol::RParen,
                                ..
                            }) {
                                spec_binop_cont(
                                    toks,
                                    j + 1,
                                    ExprV::Parentheses {
                                        lparen: toks[i],
                                        inner_expr: Box::new(inner),
                                        rparen: toks[j],
                                    },
                                )
                            } else {
                                Err(
                                    ParseErrorV {
                                        found: toks[j],
                                        expectation: ExpectationV::Symbol(seq![Symbol::RParen]),
                                    },
                                )
                            }
                        },
                        Err(e) => Err(e),
                    }
                } else {
                    Err(
                        ParseErrorV {
                            found: toks[i],
                            expectation: ExpectationV::Symbol(seq![Symbol::LParen]),
                        },
                    )
                }
            },
            TokenV::Identifier { .. } => spec_binop_cont(
                toks,
                i + 1,
                ExprV::Name { identifier: toks[i] },
            ),
            TokenV::Literal { .. } => spec_binop_cont(
                toks,
                i + 1,
                ExprV::Literal { value: toks[i] },
            ),
            _ => Err(
                ParseErrorV {
                    found: toks[i],
                    expectation: ExpectationV::Token(
                        seq![TokenKind::Symbol, TokenKind::Identifier, TokenKind::Literal],
                    ),
                },
            ),
        }
    }
}

/// The binary-operator continuation: after a candidate expression, a binary
/// operator symbol begins a recursively parsed right-hand side, making
/// chains right-associative by construction; any other token leaves the
/// candidate as it is and stays unconsumed.
pub open spec fn spec_binop_cont(toks: Seq<TokenV>, j: int, candidate: ExprV) -> Result<
    (ExprV, int),
    ParseErrorV,
>
    recommends
        0 <= j < toks.len(),
    decreases toks.len() - j, 0int,
{
    if 0 <= j < toks.len() && (toks[j] matches TokenV::Symbol { symbol, .. }
        && symbol.spec_is_binop()) {
        match spec_parse_expr(toks, j + 1) {
            Ok((rhs, k)) => Ok(
                (
                    ExprV::Binop {
                        lhs: Box::new(candidate),
                        op: toks[j],
                        rhs: Box::new(rhs),
                    },
                    k,
                ),
            ),
            Err(e) => Err(e),
        }
    } else {
        Ok((candidate, j))
    }
}

/// Assignment ::= Type, identifier, `=`, Expression. A first token that
/// cannot begin the rule is reported as an expectation of the rule itself.
pub open spec fn spec_parse_assignment(toks: Seq<TokenV>, i: int) -> Result<
    (AssignmentV, int),
    ParseErrorV,
>
    recommends
        0 <= i < toks.len(),
{
    if !(toks[i] is Identifier) {
        Err(ParseErrorV { found: toks[i], expectation: ExpectationV::Node("assignment"@) })
    } else if !(toks[i + 1] is Identifier) {
        Err(
            ParseErrorV {
                found: toks[i + 1],
                expectation: ExpectationV::Token(seq![TokenKind::Identifier]),
            },
        )
    } else if !(toks[i + 2] matches TokenV::Symbol { symbol: Symbol::Assign, .. }) {
        Err(
            ParseErrorV {
                found: toks[i + 2],
                expectation: ExpectationV::Symbol(seq![Symbol::Assign]),
            },
        )
    } else {
        match spec_parse_expr(toks, i + 3) {
            Ok((value, j)) => Ok(
                (
                    AssignmentV {
                        ty: TypeV { name: toks[i] },
                        name: toks[i + 1],
                        assign: toks[i + 2],
                        value,
                    },
                    j,
                ),
            ),
            Err(e) => Err(e),
        }
    }
}

/// FuncArg ::= Type, identifier. A first token that cannot begin the rule
/// is reported as an expectation of the rule itself.
pub open spec fn spec_parse_fn_arg(toks: Seq<TokenV>, i: int) -> Result<(FnArgV, int), ParseErrorV>
    recommends
        0 <= i < toks.len(),
{
    if !(toks[i] is Identifier) {
        Err(ParseErrorV { found: toks[i], expectation: ExpectationV::Node("function argument"@) })
    } else if !(toks[i + 1] is Identifier) {
        Err(
            ParseErrorV {
                found: toks[i + 1],
                expectation: ExpectationV::Token(seq![TokenKind::Identifier]),
            },
        )
    } else {
        Ok((FnArgV { ty: TypeV { name: toks[i] }, ident: toks[i + 1] }, i + 2))
    }
}

/// The pairs of a parenthesized, comma-delimited argument list, read up to
/// and including the closing parenthesis. If the closing delimiter stands at
/// `i`, the list ends — this covers both the empty list and a trailing
/// separator. Otherwise one argument is read; a comma after it continues the
/// list, and anything other than a comma must be the closing delimiter.
pub open spec fn spec_parse_pairs(toks: Seq<TokenV>, i: int) -> Result<
    (Seq<(FnArgV, Option<TokenV>)>, TokenV, int),
    ParseErrorV,
>
    recommends
        0 <= i < toks.len(),
    decreases toks.len() - i,
{
    if !(0 <= i < toks.len()) {
        Err(arbitrary())
    } else if toks[i] matches TokenV::Symbol { symbol: Symbol::RParen, .. } {
        Ok((Seq::empty(), toks[i], i + 1))
    } else {
        match spec_parse_fn_arg(toks, i) {
            Ok((arg, _j)) => {
                // a function argument spans exactly two tokens
                if i + 2 < toks.len() && (toks[i + 2] matches TokenV::Symbol {
                    symbol: Symbol::Comma,
                    ..
                }) {
                    match spec_parse_pairs(toks, i + 3) {
                        Ok((rest, ending, k)) => Ok(
                            (seq![(arg, Some(toks[i + 2]))] + rest, ending, k),
                        ),
                        Err(e) => Err(e),
                    }
                } else if toks[i + 2] matches TokenV::Symbol { symbol: Symbol::RParen, .. } {
                    Ok((seq![(arg, None)], toks[i + 2], i + 3))
                } else {
                    Err(
                        ParseErrorV {
                            found: toks[i + 2],
                            expectation: ExpectationV::Symbol(seq![Symbol::RParen]),
                        },
                    )
                }
            },
            Err(e) => Err(e),
        }
    }
}

/// DelimitedPunctuated ::= `(`, the comma-delimited pairs, `)`. The opening
/// delimiter is demanded as a plain symbol: a delimited list is never
/// reported as a rule of its own.
pub open spec fn spec_parse_delimited(toks: Seq<TokenV>, i: int) -> Result<
    (DelimitedPunctuatedV, int),
    ParseErrorV,
>
    recommends
        0 <= i < toks.len(),
{
    if !(toks[i] matches TokenV::Symbol { symbol: Symbol::LParen, .. }) {
        Err(
            ParseErrorV {
                found: toks[i],
                expectation: ExpectationV::Symbol(seq![Symbol::LParen]),
            },
        )
    } else {
        match spec_parse_pairs(toks, i + 1) {
            Ok((pairs, ending, k)) => Ok(
                (
                    DelimitedPunctuatedV {
                        starting_delim: toks[i],
                        pairs,
                        ending_delim: ending,
                    },
                    k,
                ),
            ),
            Err(e) => Err(e),
        }
    }
}

// ---------------------------------------------------------------------------
// Laws of expression parsing
// ---------------------------------------------------------------------------

/// Whether an expression is built only from literal values, named
/// references, genuine parentheses and binary-operator symbols.
pub open spec fn expr_wf(e: ExprV) -> bool
    decreases e,
{
    match e {
        ExprV::Parentheses { lparen, inner_expr, rparen } => (lparen matches TokenV::Symbol {
            symbol: Symbol::LParen,
            ..
        }) && (rparen matches TokenV::Symbol { symbol: Symbol::RParen, .. }) && expr_wf(
            *inner_expr,
        ),
        ExprV::Literal { value } => value is Literal,
        ExprV::Name { identifier } => identifier is Identifier,
        ExprV::Binop { lhs, op, rhs } => (op matches TokenV::Symbol { symbol, .. }
            && symbol.spec_is_binop()) && expr_wf(*lhs) && expr_wf(*rhs),
    }
}

/// Whether an expression has the right-associative shape the parser builds:
/// the left operand of a binary operation is never itself a binary
/// operation, so a chain of operators nests to the right.
pub open spec fn expr_right_assoc(e: ExprV) -> bool
    decreases e,
{
    match e {
        ExprV::Parentheses { inner_expr, .. } => expr_right_assoc(*inner_expr),
        ExprV::Binop { lhs, rhs, .. } => !(*lhs is Binop) && expr_right_assoc(*lhs)
            && expr_right_assoc(*rhs),
        _ => true,
    }
}

/// The tokens an expression is built from, in source order.
pub open spec fn expr_tokens(e: ExprV) -> Seq<TokenV>
    decreases e,
{
    match e {
        ExprV::Parentheses { lparen, inner_expr, rparen } => seq![lparen] + expr_tokens(*inner_expr)
            + seq![rparen],
        ExprV::Literal { value } => seq![value],
        ExprV::Name { identifier } => seq![identifier],
        ExprV::Binop { lhs, op, rhs } => expr_tokens(*lhs) + seq![op] + expr_tokens(*rhs),
    }
}

/// An expression is built from at least one token.
pub proof fn lemma_expr_tokens_len(e: ExprV)
    ensures
        expr_tokens(e).len() >= 1,
    decreases e,
{
    match e {
        ExprV::Parentheses { inner_expr, .. } => lemma_expr_tokens_len(*inner_expr),
        ExprV::Binop { lhs, rhs, .. } => {
            lemma_expr_tokens_len(*lhs);
            lemma_expr_tokens_len(*rhs);
        },
        _ => {},
    }
}

/// The token at distance `m` into a laid-out token sequence `t` is `t[m]`.
proof fn lemma_tok_at(toks: Seq<TokenV>, i: int, t: Seq<TokenV>, m: int)
    requires
        0 <= i,
        i + t.len() <= toks.len(),
        toks.subrange(i, i + t.len() as int) == t,
        0 <= m < t.len(),
    ensures
        toks[i + m] == t[m],
{
    assert(toks.subrange(i, i + t.len() as int)[m] == toks[i + m]);
}

/// A middle piece of a laid-out token sequence is the matching slice of it.
proof fn lemma_subrange_shift(toks: Seq<TokenV>, i: int, t: Seq<TokenV>, a: int, b: int)
    requires
        0 <= i,
        i + t.len() <= toks.len(),
        toks.subrange(i, i + t.len() as int) == t,
        0 <= a <= b <= t.len(),
    ensures
        toks.subrange(i + a, i + b) == t.subrange(a, b),
{
    assert forall|k: int| 0 <= k < b - a implies toks.subrange(i + a, i + b)[k] == t.subrange(
        a,
        b,
    )[k] by {
        assert(toks.subrange(i, i + t.len() as int)[a + k] == toks[i + a + k]);
        assert(toks.subrange(i + a, i + b)[k] == toks[i + a + k]);
    }
    assert(toks.subrange(i + a, i + b) =~= t.subrange(a, b));
}

/// Parsing is complete and shape-faithful on expressions: lay the tokens of
/// any expression built only from literals, named references, parentheses
/// and binary operators, in its right-associative shape, at position `i`,
/// with whatever follows not being a binary operator, and the parser
/// succeeds, consumes exactly those tokens, and rebuilds exactly that
/// expression — in particular, a chain of binary operators nests to the
/// right.
pub proof fn lemma_parse_expr_complete(toks: Seq<TokenV>, i: int, e: ExprV)
    requires
        expr_wf(e),
        expr_right_assoc(e),
        0 <= i,
        i + expr_tokens(e).len() < toks.len(),
        toks.subrange(i, i + expr_tokens(e).len() as int) == expr_tokens(e),
        !(toks[i + expr_tokens(e).len()] matches TokenV::Symbol { symbol, .. }
            && symbol.spec_is_binop()),
    ensures
        spec_parse_expr(toks, i) == Ok::<_, ParseErrorV>((e, i + expr_tokens(e).len())),
    decreases e,
{
    let t = expr_tokens(e);
    let n = t.len() as int;
    match e {
        ExprV::Name { identifier } => {
            lemma_tok_at(toks, i, t, 0);
            assert(toks[i] == identifier);
            assert(spec_binop_cont(toks, i + 1, ExprV::Name { identifier: toks[i] }) == Ok::<
                _,
                ParseErrorV,
            >((e, i + 1)));
        },
        ExprV::Literal { value } => {
            lemma_tok_at(toks, i, t, 0);
            assert(toks[i] == value);
            assert(spec_binop_cont(toks, i + 1, ExprV::Literal { value: toks[i] }) == Ok::<
                _,
                ParseErrorV,
            >((e, i + 1)));
        },
        ExprV::Parentheses { lparen, inner_expr, rparen } => {
            let inner = *inner_expr;
            let e_in = expr_tokens(inner);
            let n_in = e_in.len() as int;
            lemma_expr_tokens_len(inner);
            lemma_tok_at(toks, i, t, 0);
            lemma_tok_at(toks, i, t, 1 + n_in);
            assert(toks[i] == lparen);
            assert(toks[i + 1 + n_in] == rparen);
            lemma_subrange_shift(toks, i, t, 1, 1 + n_in);
            assert(t.subrange(1, 1 + n_in) =~= e_in);
            lemma_parse_expr_complete(toks, i + 1, inner);
            let j0 = i + 1 + n_in;
            assert(Box::new(inner) == inner_expr);
            assert(spec_binop_cont(
                toks,
                j0 + 1,
                ExprV::Parentheses {
                    lparen: toks[i],
                    inner_expr: Box::new(inner),
                    rparen: toks[j0],
                },
            ) == Ok::<_, ParseErrorV>((e, i + n)));
        },
        ExprV::Binop { lhs, op, rhs } => {
            reveal_with_fuel(expr_wf, 3);
            reveal_with_fuel(expr_right_assoc, 3);
            reveal_with_fuel(expr_tokens, 3);
            let left = *lhs;
            let right = *rhs;
            let t_l = expr_tokens(left);
            let n_l = t_l.len() as int;
            lemma_expr_tokens_len(left);
            lemma_expr_tokens_len(right);
            lemma_tok_at(toks, i, t, n_l);
            assert(toks[i + n_l] == op);
            lemma_subrange_shift(toks, i, t, n_l + 1, n);
            assert(t.subrange(n_l + 1, n) =~= expr_tokens(right));
            lemma_parse_expr_complete(toks, i + n_l + 1, right);
            assert(Box::new(right) == rhs);
            lemma_subrange_shift(toks, i, t, 0, n_l);
            assert(t.subrange(0, n_l) =~= t_l);
            assert(Box::new(left) == lhs);
            match left {
                ExprV::Name { identifier } => {
                    lemma_tok_at(toks, i, t_l, 0);
                },
                ExprV::Literal { value } => {
                    lemma_tok_at(toks, i, t_l, 0);
                },
                ExprV::Parentheses { lparen, inner_expr, rparen } => {
                    let inner = *inner_expr;
                    let e_in = expr_tokens(inner);
                    let n_in = e_in.len() as int;
                    lemma_expr_tokens_len(inner);
                    lemma_tok_at(toks, i, t_l, 0);
                    lemma_tok_at(toks, i, t_l, 1 + n_in);
                    assert(toks[i] == lparen);
                    assert(toks[i + 1 + n_in] == rparen);
                    lemma_subrange_shift(toks, i, t_l, 1, 1 + n_in);
                    assert(t_l.subrange(1, 1 + n_in) =~= e_in);
                    lemma_parse_expr_complete(toks, i + 1, inner);
                    let j0 = i + 1 + n_in;
                    assert(Box::new(inner) == inner_expr);
                    assert(spec_parse_expr(toks, i) == spec_binop_cont(
                        toks,
                        j0 + 1,
                        ExprV::Parentheses {
                            lparen: toks[i],
                            inner_expr: Box::new(inner),
                            rparen: toks[j0],
                        },
                    ));
                },
                ExprV::Binop { .. } => {
                    assert(false);
                },
            }
        },
    }
}

// ---------------------------------------------------------------------------
// Laws of the delimited, punctuated list
// ---------------------------------------------------------------------------

/// Whether a function argument is built from two identifier tokens.
pub open spec fn fn_arg_wf(a: FnArgV) -> bool {
    a.ty.name is Identifier && a.ident is Identifier
}

/// The tokens one function argument is built from.
pub open spec fn fn_arg_tokens(a: FnArgV) -> Seq<TokenV> {
    seq![a.ty.name, a.ident]
}

/// The tokens of an argument list interleaved with its separator tokens:
/// `commas[j]` follows `args[j]`. With as many separators as arguments the
/// list carries a trailing separator; with one fewer it does not.
pub open spec fn punct_tokens(args: Seq<FnArgV>, commas: Seq<TokenV>) -> Seq<TokenV>
    decreases args.len(),
{
    if args.len() == 0 {
        Seq::empty()
    } else {
        let sep: Seq<TokenV> = if commas.len() > 0 {
            seq![commas[0]]
        } else {
            Seq::empty()
        };
        fn_arg_tokens(args[0]) + sep + punct_tokens(
            args.drop_first(),
            if commas.len() > 0 {
                commas.drop_first()
            } else {
                commas
            },
        )
    }
}

/// The delimited, punctuated list accepts an empty list and a trailing
/// separator, and its result has the same count and the same arguments
/// whether or not a trailing separator is present: lay out any arguments
/// with separators after each argument — the last one optional — and the
/// closing delimiter, and the rule succeeds, pairing each argument with the
/// separator that follows it and recording none on the last argument
/// exactly when no trailing separator is present.
pub proof fn lemma_parse_pairs_complete(
    toks: Seq<TokenV>,
    i: int,
    args: Seq<FnArgV>,
    commas: Seq<TokenV>,
    rparen: TokenV,
)
    requires
        forall|j: int| 0 <= j < args.len() ==> fn_arg_wf(#[trigger] args[j]),
        forall|j: int|
            0 <= j < commas.len() ==> #[trigger] commas[j] matches TokenV::Symbol {
                symbol: Symbol::Comma,
                ..
            },
        rparen matches TokenV::Symbol { symbol: Symbol::RParen, .. },
        commas.len() == args.len() || commas.len() + 1 == args.len(),
        0 <= i,
        i + punct_tokens(args, commas).len() + 1 <= toks.len(),
        toks.subrange(i, i + punct_tokens(args, commas).len() + 1) == punct_tokens(args, commas)
            + seq![rparen],
    ensures
        spec_parse_pairs(toks, i) matches Ok(res) && {
            let (pairs, ending, k) = res;
            &&& pairs.len() == args.len()
            &&& forall|j: int| 0 <= j < args.len() ==> (#[trigger] pairs[j]).0 == args[j]
            &&& forall|j: int| 0 <= j < commas.len() ==> (#[trigger] pairs[j]).1 == Some(commas[j])
            &&& commas.len() + 1 == args.len() ==> pairs[args.len() - 1].1 is None
            &&& ending == rparen
            &&& k == i + punct_tokens(args, commas).len() + 1
        },
    decreases args.len(),
{
    let t = punct_tokens(args, commas) + seq![rparen];
    let n = t.len() as int;
    if args.len() == 0 {
        assert(t =~= seq![rparen]);
        lemma_tok_at(toks, i, t, 0);
        assert(toks[i] == rparen);
    } else {
        let arg0 = args[0];
        lemma_tok_at(toks, i, t, 0);
        lemma_tok_at(toks, i, t, 1);
        lemma_tok_at(toks, i, t, 2);
        assert(toks[i] == arg0.ty.name);
        assert(toks[i + 1] == arg0.ident);
        assert(spec_parse_fn_arg(toks, i) == Ok::<_, ParseErrorV>(
            (FnArgV { ty: TypeV { name: toks[i] }, ident: toks[i + 1] }, i + 2),
        ));
        if commas.len() > 0 {
            assert(toks[i + 2] == commas[0]);
            let rest_t = punct_tokens(args.drop_first(), commas.drop_first());
            lemma_subrange_shift(toks, i, t, 3, n);
            assert(t.subrange(3, n) =~= rest_t + seq![rparen]);
            lemma_parse_pairs_complete(toks, i + 3, args.drop_first(), commas.drop_first(), rparen);
            let res = spec_parse_pairs(toks, i + 3)->Ok_0;
            let pairs = seq![(FnArgV { ty: TypeV { name: toks[i] }, ident: toks[i + 1] }, Some(
                toks[i + 2],
            ))] + res.0;
            assert(spec_parse_pairs(toks, i) matches Ok(whole) && whole.0 == pairs);
            assert forall|j: int| 0 <= j < args.len() implies (#[trigger] pairs[j]).0 == args[j] by {
                if j > 0 {
                    assert(pairs[j] == res.0[j - 1]);
                    assert(args.drop_first()[j - 1] == args[j]);
                }
            }
            assert forall|j: int| 0 <= j < commas.len() implies (#[trigger] pairs[j]).1 == Some(
                commas[j],
            ) by {
                if j > 0 {
                    assert(pairs[j] == res.0[j - 1]);
                    assert(commas.drop_first()[j - 1] == commas[j]);
                }
            }
            if commas.len() + 1 == args.len() {
                assert(pairs[args.len() - 1] == res.0[args.len() - 2]);
            }
        } else {
            // one argument, no trailing separator: the closing delimiter
            // must follow at once
            assert(args.len() == 1);
            assert(punct_tokens(args.drop_first(), commas) =~= Seq::<TokenV>::empty());
            assert(t =~= seq![arg0.ty.name, arg0.ident, rparen]);
            assert(toks[i + 2] == rparen);
            let pairs = seq![(FnArgV { ty: TypeV { name: toks[i] }, ident: toks[i + 1] }, None::<
                TokenV,
            >)];
            assert(spec_parse_pairs(toks, i) matches Ok(whole) && whole.0 == pairs);
        }
    }
}

/// The law above at the level of the whole delimited list: between genuine
/// parentheses, the rule accepts an empty list and a trailing separator, and
/// its result has the same count and the same arguments whether or not a
/// trailing separator is present — only the separator recorded on the last
/// argument differs.
pub proof fn lemma_parse_delimited_complete(
    toks: Seq<TokenV>,
    i: int,
    lparen: TokenV,
    args: Seq<FnArgV>,
    commas: Seq<TokenV>,
    rparen: TokenV,
)
    requires
        lparen matches TokenV::Symbol { symbol: Symbol::LParen, .. },
        forall|j: int| 0 <= j < args.len() ==> fn_arg_wf(#[trigger] args[j]),
        forall|j: int|
            0 <= j < commas.len() ==> #[trigger] commas[j] matches TokenV::Symbol {
                symbol: Symbol::Comma,
                ..
            },
        rparen matches TokenV::Symbol { symbol: Symbol::RParen, .. },
        commas.len() == args.len() || commas.len() + 1 == args.len(),
        0 <= i,
        i + punct_tokens(args, commas).len() + 2 <= toks.len(),
        toks.subrange(i, i + punct_tokens(args, commas).len() + 2) == seq![lparen] + punct_tokens(
            args,
            commas,
        ) + seq![rparen],
    ensures
        spec_parse_delimited(toks, i) matches Ok(res) && {
            let (node, k) = res;
            &&& node.starting_delim == lparen
            &&& node.ending_delim == rparen
            &&& node.pairs.len() == args.len()
            &&& forall|j: int| 0 <= j < args.len() ==> (#[trigger] node.pairs[j]).0 == args[j]
            &&& forall|j: int|
                0 <= j < commas.len() ==> (#[trigger] node.pairs[j]).1 == Some(commas[j])
            &&& commas.len() + 1 == args.len() ==> node.pairs[args.len() - 1].1 is None
            &&& k == i + punct_tokens(args, commas).len() + 2
        },
{
    let pt = punct_tokens(args, commas);
    let t = seq![lparen] + pt + seq![rparen];
    lemma_tok_at(toks, i, t, 0);
    assert(toks[i] == lparen);
    lemma_subrange_shift(toks, i, t, 1, t.len() as int);
    assert(t.subrange(1, t.len() as int) =~= pt + seq![rparen]);
    lemma_parse_pairs_complete(toks, i + 1, args, commas, rparen);
}

/// FuncDef ::= Type, identifier, `::`, DelimitedPunctuated of FuncArg. A
/// first token that cannot begin the rule is reported as an expectation of
/// the rule itself.
pub open spec fn spec_parse_func_def(toks: Seq<TokenV>, i: int) -> Result<
    (FuncDefV, int),
    ParseErrorV,
>
    recommends
        0 <= i < toks.len(),
{
    if !(toks[i] is Identifier) {
        Err(
            ParseErrorV {
                found: toks[i],
                expectation: ExpectationV::Node("function definition"@),
            },
        )
    } else if !(toks[i + 1] is Identifier) {
        Err(
            ParseErrorV {
                found: toks[i + 1],
                expectation: ExpectationV::Token(seq![TokenKind::Identifier]),
            },
        )
    } else if !(toks[i + 2] matches TokenV::Symbol { symbol: Symbol::TwoColons, .. }) {
        Err(
            ParseErrorV {
                found: toks[i + 2],
                expectation: ExpectationV::Symbol(seq![Symbol::TwoColons]),
            },
        )
    } else {
        match spec_parse_delimited(toks, i + 3) {
            Ok((args, k)) => Ok(
                (
                    FuncDefV {
                        ty: TypeV { name: toks[i] },
                        ident: toks[i + 1],
                        two_colons: toks[i + 2],
                        args,
                    },
                    k,
                ),
            ),
            Err(e) => Err(e),
        }
    }
}

} // verus!
