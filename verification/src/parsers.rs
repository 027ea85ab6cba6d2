use vstd::prelude::*;

use crate::atom::Symbol;
use crate::error::{Expectation, ExpectationV, ParseError, ParseErrorV};
use crate::grammar::{
    spec_binop_cont, spec_parse_assignment, spec_parse_delimited, spec_parse_expr,
    spec_parse_fn_arg, spec_parse_func_def, spec_parse_pairs, spec_parse_type,
};
use crate::parser_state::ParserState;
use crate::token::{Token, TokenKind, TokenV};

verus! {

// ---------------------------------------------------------------------------
// The syntax tree
// ---------------------------------------------------------------------------

/// A type in the grammar: one identifier token naming it. No validation
/// against the builtin type names happens at the grammar level.
#[derive(Debug)]
pub struct Type {
    /// The identifier token naming the type.
    pub name: Token,
}

/// The mathematical value of a `Type`.
pub struct TypeV {
    /// The identifier token naming the type.
    pub name: TokenV,
}

impl View for Type {
    type V = TypeV;

    open spec fn view(&self) -> TypeV {
        TypeV { name: self.name@ }
    }
}

impl DeepView for Type {
    type V = TypeV;

    open spec fn deep_view(&self) -> TypeV {
        self.view()
    }
}

/// An expression: a literal value, a named reference, a parenthesized
/// sub-expression, or a binary operation combining two expressions.
#[derive(Debug)]
pub enum Expression {
    /// A sub-expression bracketed by explicit parenthesis tokens.
    Parentheses {
        /// The opening parenthesis token.
        lparen: Token,
        /// The bracketed sub-expression.
        inner_expr: Box<Expression>,
        /// The closing parenthesis token.
        rparen: Token,
    },
    /// A literal value.
    Literal {
        /// The literal token.
        value: Token,
    },
    /// A named reference.
    Name {
        /// The identifier token.
        identifier: Token,
    },
    /// A binary operation. Chains of the same operator are right-associative
    /// by construction: the right-hand side extends as far as it can.
    Binop {
        /// The left operand.
        lhs: Box<Expression>,
        /// The operator token.
        op: Token,
        /// The right operand.
        rhs: Box<Expression>,
    },
}

/// The mathematical value of an `Expression`.
pub enum ExprV {
    /// A parenthesized sub-expression.
    Parentheses { lparen: TokenV, inner_expr: Box<ExprV>, rparen: TokenV },
    /// A literal value.
    Literal { value: TokenV },
    /// A named reference.
    Name { identifier: TokenV },
    /// A binary operation.
    Binop { lhs: Box<ExprV>, op: TokenV, rhs: Box<ExprV> },
}

/// The mathematical value of an expression, node by node.
pub open spec fn expr_view(e: Expression) -> ExprV
    decreases e,
{
    match e {
        Expression::Parentheses { lparen, inner_expr, rparen } => ExprV::Parentheses {
            lparen: lparen@,
            inner_expr: Box::new(expr_view(*inner_expr)),
            rparen: rparen@,
        },
        Expression::Literal { value } => ExprV::Literal { value: value@ },
        Expression::Name { identifier } => ExprV::Name { identifier: identifier@ },
        Expression::Binop { lhs, op, rhs } => ExprV::Binop {
            lhs: Box::new(expr_view(*lhs)),
            op: op@,
            rhs: Box::new(expr_view(*rhs)),
        },
    }
}

impl View for Expression {
    type V = ExprV;

    open spec fn view(&self) -> ExprV {
        expr_view(*self)
    }
}

impl DeepView for Expression {
    type V = ExprV;

    open spec fn deep_view(&self) -> ExprV {
        self.view()
    }
}

/// A typed variable assignment: type, name, assignment symbol and value.
#[derive(Debug)]
pub struct Assignment {
    /// The type of the assigned variable.
    pub ty: Type,
    /// The identifier token naming the variable.
    pub name: Token,
    /// The assignment symbol token.
    pub assign: Token,
    /// The assigned value.
    pub value: Expression,
}

/// The mathematical value of an `Assignment`.
pub struct AssignmentV {
    /// The type of the assigned variable.
    pub ty: TypeV,
    /// The identifier token naming the variable.
    pub name: TokenV,
    /// The assignment symbol token.
    pub assign: TokenV,
    /// The assigned value.
    pub value: ExprV,
}

impl View for Assignment {
    type V = AssignmentV;

    open spec fn view(&self) -> AssignmentV {
        AssignmentV { ty: self.ty@, name: self.name@, assign: self.assign@, value: self.value@ }
    }
}

impl DeepView for Assignment {
    type V = AssignmentV;

    open spec fn deep_view(&self) -> AssignmentV {
        self.view()
    }
}

/// One argument of a function signature: its type and its name.
#[derive(Debug)]
pub struct FnArg {
    /// The type of the argument.
    pub ty: Type,
    /// The identifier token naming the argument.
    pub ident: Token,
}

/// The mathematical value of a `FnArg`.
pub struct FnArgV {
    /// The type of the argument.
    pub ty: TypeV,
    /// The identifier token naming the argument.
    pub ident: TokenV,
}

impl View for FnArg {
    type V = FnArgV;

    open spec fn view(&self) -> FnArgV {
        FnArgV { ty: self.ty@, ident: self.ident@ }
    }
}

impl DeepView for FnArg {
    type V = FnArgV;

    open spec fn deep_view(&self) -> FnArgV {
        self.view()
    }
}

/// A parenthesized, comma-delimited, possibly empty list of function
/// arguments: the opening delimiter token, the arguments each with the
/// separator token that follows it, if any, and the closing delimiter
/// token. A trailing separator before the closing delimiter is permitted
/// and recorded on the last argument.
#[derive(Debug)]
pub struct DelimitedPunctuated {
    /// The opening delimiter token.
    pub starting_delim: Token,
    /// The arguments, each with its following separator token, if any.
    pub pairs: Vec<(FnArg, Option<Token>)>,
    /// The closing delimiter token.
    pub ending_delim: Token,
}

/// The mathematical value of a `DelimitedPunctuated`.
pub struct DelimitedPunctuatedV {
    /// The opening delimiter token.
    pub starting_delim: TokenV,
    /// The arguments, each with its following separator token, if any.
    pub pairs: Seq<(FnArgV, Option<TokenV>)>,
    /// The closing delimiter token.
    pub ending_delim: TokenV,
}

impl View for DelimitedPunctuated {
    type V = DelimitedPunctuatedV;

    open spec fn view(&self) -> DelimitedPunctuatedV {
        DelimitedPunctuatedV {
            starting_delim: self.starting_delim@,
            pairs: self.pairs.deep_view(),
            ending_delim: self.ending_delim@,
        }
    }
}

impl DeepView for DelimitedPunctuated {
    type V = DelimitedPunctuatedV;

    open spec fn deep_view(&self) -> DelimitedPunctuatedV {
        self.view()
    }
}

impl DelimitedPunctuated {
    /// Builds a delimited list from its parts.
    pub fn new(
        pairs: Vec<(FnArg, Option<Token>)>,
        starting_delim: Token,
        ending_delim: Token,
    ) -> (node: Self)
        ensures
            node@ == (DelimitedPunctuatedV {
                starting_delim: starting_delim@,
                pairs: pairs.deep_view(),
                ending_delim: ending_delim@,
            }),
    {
        Self { starting_delim, pairs, ending_delim }
    }
}

/// A function-signature declaration: return type, name, the double-colon
/// separator and the argument list.
#[derive(Debug)]
pub struct FuncDef {
    /// The return type.
    pub ty: Type,
    /// The identifier token naming the function.
    pub ident: Token,
    /// The double-colon separator token.
    pub two_colons: Token,
    /// The parenthesized argument list.
    pub args: DelimitedPunctuated,
}

/// The mathematical value of a `FuncDef`.
pub struct FuncDefV {
    /// The return type.
    pub ty: TypeV,
    /// The identifier token naming the function.
    pub ident: TokenV,
    /// The double-colon separator token.
    pub two_colons: TokenV,
    /// The parenthesized argument list.
    pub args: DelimitedPunctuatedV,
}

impl View for FuncDef {
    type V = FuncDefV;

    open spec fn view(&self) -> FuncDefV {
        FuncDefV {
            ty: self.ty@,
            ident: self.ident@,
            two_colons: self.two_colons@,
            args: self.args@,
        }
    }
}

impl DeepView for FuncDef {
    type V = FuncDefV;

    open spec fn deep_view(&self) -> FuncDefV {
        self.view()
    }
}

// ---------------------------------------------------------------------------
// The parsing functions, one per grammar rule
// ---------------------------------------------------------------------------

impl Type {
    /// Reads a type: one identifier token.
    pub fn parse(state: &mut ParserState) -> (r: Result<Type, ParseError>)
        requires
            old(state).wf(),
        ensures
            final(state).wf(),
            final(state).toks() == old(state).toks(),
            final(state).pos() >= old(state).pos(),
            match r {
                Ok(node) => spec_parse_type(old(state).toks(), old(state).pos()) == Ok::<
                    _,
                    ParseErrorV,
                >((node@, final(state).pos())) && final(state).pos() > old(state).pos(),
                Err(e) => spec_parse_type(old(state).toks(), old(state).pos()) == Err::<
                    (TypeV, int),
                    _,
                >(e@) && final(state).pos() == old(state).pos(),
            },
    {
        match state.take_identifier() {
            Ok(name) => Ok(Type { name }),
            Err(e) => Err(e),
        }
    }
}

/// Consumes the token under the cursor when it is exactly the symbol
/// `symbol`, leaving the cursor unmoved otherwise.
fn check_symbol(state: &mut ParserState, symbol: Symbol) -> (r: Option<Token>)
    requires
        old(state).wf(),
    ensures
        final(state).wf(),
        final(state).toks() == old(state).toks(),
        match r {
            Some(t) => old(state).cur() matches TokenV::Symbol { symbol: found_sym, .. }
                && found_sym == symbol && t@ == old(state).cur() && final(state).pos() == old(
                state,
            ).pos() + 1,
            None => !(old(state).cur() matches TokenV::Symbol { symbol: found_sym, .. }
                && found_sym == symbol) && final(state).pos() == old(state).pos(),
        },
{
    let tok = state.peek().clone();
    if tok.kind() == TokenKind::Symbol && tok.as_symbol() == symbol {
        state.advance();
        Some(tok)
    } else {
        None
    }
}

/// After a candidate expression, reads the binary-operator continuation: a
/// binary operator begins a recursively parsed right-hand side; any other
/// token leaves the candidate as it is and stays unconsumed.
fn parse_binop_continuation(state: &mut ParserState, candidate: Expression) -> (r: Result<
    Expression,
    ParseError,
>)
    requires
        old(state).wf(),
    ensures
        final(state).wf(),
        final(state).toks() == old(state).toks(),
        final(state).pos() >= old(state).pos(),
        match r {
            Ok(e) => spec_binop_cont(old(state).toks(), old(state).pos(), expr_view(candidate))
                == Ok::<_, ParseErrorV>((e@, final(state).pos())),
            Err(err) => spec_binop_cont(old(state).toks(), old(state).pos(), expr_view(candidate))
                == Err::<(ExprV, int), _>(err@),
        },
    decreases state.toks().len() - state.pos(), 0int,
{
    let is_binop = {
        let tok = state.peek();
        tok.kind() == TokenKind::Symbol && tok.as_symbol().is_binop()
    };
    if is_binop {
        let op = state.peek().clone();
        state.advance();
        match Expression::parse(state) {
            Ok(rhs) => Ok(
                Expression::Binop { lhs: Box::new(candidate), op, rhs: Box::new(rhs) },
            ),
            Err(e) => Err(e),
        }
    } else {
        Ok(candidate)
    }
}

impl Expression {
    /// Reads an expression, dispatching on its first token: a parenthesized
    /// sub-expression, a named reference or a literal value, followed by the
    /// binary-operator continuation. Any other first token — the end of the
    /// input and unknown tokens included — is a hard error naming the
    /// acceptable token kinds.
    ///
    /// Recursion depth is proportional to the nesting of the source —
    /// parenthesis depth and operator chain length — and is bounded by the
    /// number of tokens left under the cursor, which the termination measure
    /// checks; deeply nested input costs stack in that proportion.
    pub fn parse(state: &mut ParserState) -> (r: Result<Expression, ParseError>)
        requires
            old(state).wf(),
        ensures
            final(state).wf(),
            final(state).toks() == old(state).toks(),
            final(state).pos() >= old(state).pos(),
            match r {
                Ok(e) => spec_parse_expr(old(state).toks(), old(state).pos()) == Ok::<
                    _,
                    ParseErrorV,
                >((e@, final(state).pos())) && final(state).pos() > old(state).pos(),
                Err(err) => spec_parse_expr(old(state).toks(), old(state).pos()) == Err::<
                    (ExprV, int),
                    _,
                >(err@),
            },
        decreases state.toks().len() - state.pos(), 1int,
    {
        let first_kind = state.peek().kind();
        match first_kind {
            TokenKind::Symbol => {
                let first_sym = state.peek().as_symbol();
                if first_sym == Symbol::LParen {
                    let lparen = state.peek().clone();
                    state.advance();
                    match Expression::parse(state) {
                        Ok(inner) => {
                            match state.take_symbol(Symbol::RParen) {
                                Ok(rparen) => {
                                    let candidate = Expression::Parentheses {
                                        lparen,
                                        inner_expr: Box::new(inner),
                                        rparen,
                                    };
                                    parse_binop_continuation(state, candidate)
                                },
                                Err(e) => Err(e),
                            }
                        },
                        Err(e) => Err(e),
                    }
                } else {
                    let symbols = vec![Symbol::LParen];
                    proof {
                        assert(symbols@ =~= seq![Symbol::LParen]);
                    }
                    Err(
                        ParseError {
                            found: state.peek().clone(),
                            expectation: Expectation::Symbol(symbols),
                        },
                    )
                }
            },
            TokenKind::Identifier => {
                let identifier = state.peek().clone();
                state.advance();
                parse_binop_continuation(state, Expression::Name { identifier })
            },
            TokenKind::Literal => {
                let value = state.peek().clone();
                state.advance();
                parse_binop_continuation(state, Expression::Literal { value })
            },
            _ => {
                let kinds = vec![TokenKind::Symbol, TokenKind::Identifier, TokenKind::Literal];
                proof {
                    assert(kinds@ =~= seq![
                        TokenKind::Symbol,
                        TokenKind::Identifier,
                        TokenKind::Literal,
                    ]);
                }
                Err(
                    ParseError {
                        found: state.peek().clone(),
                        expectation: Expectation::Token(kinds),
                    },
                )
            },
        }
    }
}

impl Assignment {
    /// Reads a typed variable assignment: a type, the variable's name, the
    /// assignment symbol and the assigned expression. A first token that
    /// cannot begin the rule is reported as an expectation of the rule
    /// itself.
    pub fn parse(state: &mut ParserState) -> (r: Result<Assignment, ParseError>)
        requires
            old(state).wf(),
        ensures
            final(state).wf(),
            final(state).toks() == old(state).toks(),
            final(state).pos() >= old(state).pos(),
            match r {
                Ok(node) => spec_parse_assignment(old(state).toks(), old(state).pos()) == Ok::<
                    _,
                    ParseErrorV,
                >((node@, final(state).pos())),
                Err(e) => spec_parse_assignment(old(state).toks(), old(state).pos()) == Err::<
                    (AssignmentV, int),
                    _,
                >(e@),
            },
    {
        if state.peek().kind() != TokenKind::Identifier {
            return Err(
                ParseError {
                    found: state.peek().clone(),
                    expectation: Expectation::Node("assignment"),
                },
            );
        }
        let ty = match Type::parse(state) {
            Ok(t) => t,
            Err(e) => return Err(e),
        };
        let name = match state.take_identifier() {
            Ok(t) => t,
            Err(e) => return Err(e),
        };
        let assign = match state.take_symbol(Symbol::Assign) {
            Ok(t) => t,
            Err(e) => return Err(e),
        };
        match Expression::parse(state) {
            Ok(value) => Ok(Assignment { ty, name, assign, value }),
            Err(e) => Err(e),
        }
    }
}

impl FnArg {
    /// Reads one function argument: a type and the argument's name. A first
    /// token that cannot begin the rule is reported as an expectation of
    /// the rule itself.
    pub fn parse(state: &mut ParserState) -> (r: Result<FnArg, ParseError>)
        requires
            old(state).wf(),
        ensures
            final(state).wf(),
            final(state).toks() == old(state).toks(),
            final(state).pos() >= old(state).pos(),
            match r {
                Ok(node) => spec_parse_fn_arg(old(state).toks(), old(state).pos()) == Ok::<
                    _,
                    ParseErrorV,
                >((node@, final(state).pos())) && final(state).pos() == old(state).pos() + 2,
                Err(e) => spec_parse_fn_arg(old(state).toks(), old(state).pos()) == Err::<
                    (FnArgV, int),
                    _,
                >(e@),
            },
    {
        if state.peek().kind() != TokenKind::Identifier {
            return Err(
                ParseError {
                    found: state.peek().clone(),
                    expectation: Expectation::Node("function argument"),
                },
            );
        }
        let ty = match Type::parse(state) {
            Ok(t) => t,
            Err(e) => return Err(e),
        };
        let ident = match state.take_identifier() {
            Ok(t) => t,
            Err(e) => return Err(e),
        };
        Ok(FnArg { ty, ident })
    }
}

/// The accumulated pairs so far, continued from the cursor position,
/// deliver exactly what the whole pairs rule delivers from its start.
spec fn pairs_extend_to(
    toks: Seq<TokenV>,
    start: int,
    cur: int,
    acc: Seq<(FnArgV, Option<TokenV>)>,
) -> bool {
    match spec_parse_pairs(toks, cur) {
        Ok((rest, ending, k)) => spec_parse_pairs(toks, start) == Ok::<_, ParseErrorV>(
            (acc + rest, ending, k),
        ),
        Err(e) => spec_parse_pairs(toks, start) == Err::<
            (Seq<(FnArgV, Option<TokenV>)>, TokenV, int),
            _,
        >(e),
    }
}

impl DelimitedPunctuated {
    /// Reads a parenthesized, comma-delimited, possibly empty list of
    /// function arguments. At each round the closing delimiter ends the
    /// list — covering the empty list and a trailing separator — else one
    /// argument is read; a comma after it continues the list, and anything
    /// other than a comma must be the closing delimiter.
    #[verifier::loop_isolation(false)]
    pub fn parse(state: &mut ParserState) -> (r: Result<DelimitedPunctuated, ParseError>)
        requires
            old(state).wf(),
        ensures
            final(state).wf(),
            final(state).toks() == old(state).toks(),
            final(state).pos() >= old(state).pos(),
            match r {
                Ok(node) => spec_parse_delimited(old(state).toks(), old(state).pos()) == Ok::<
                    _,
                    ParseErrorV,
                >((node@, final(state).pos())),
                Err(e) => spec_parse_delimited(old(state).toks(), old(state).pos()) == Err::<
                    (DelimitedPunctuatedV, int),
                    _,
                >(e@),
            },
    {
        let ghost toks = old(state).toks();
        let ghost start0 = old(state).pos();
        let starting_delim = match state.take_symbol(Symbol::LParen) {
            Ok(t) => t,
            Err(e) => return Err(e),
        };
        let ghost start = state.pos();
        let mut pairs: Vec<(FnArg, Option<Token>)> = Vec::new();
        proof {
            assert(pairs.deep_view() =~= Seq::<(FnArgV, Option<TokenV>)>::empty());
        }
        loop
            invariant
                state.wf(),
                state.toks() == toks,
                state.pos() >= start,
                pairs_extend_to(toks, start, state.pos(), pairs.deep_view()),
                spec_parse_delimited(toks, start0) == (match spec_parse_pairs(toks, start) {
                    Ok((ps, ending, k)) => Ok::<_, ParseErrorV>(
                        (
                            DelimitedPunctuatedV {
                                starting_delim: starting_delim@,
                                pairs: ps,
                                ending_delim: ending,
                            },
                            k,
                        ),
                    ),
                    Err(e) => Err::<(DelimitedPunctuatedV, int), _>(e),
                }),
            decreases state.toks().len() - state.pos(),
        {
            let ghost round_pos = state.pos();
            let ghost acc0 = pairs.deep_view();
            match check_symbol(state, Symbol::RParen) {
                Some(ending_delim) => {
                    proof {
                        assert(acc0 + Seq::<(FnArgV, Option<TokenV>)>::empty() =~= acc0);
                    }
                    return Ok(DelimitedPunctuated::new(pairs, starting_delim, ending_delim));
                },
                None => {},
            }
            let node_t = match FnArg::parse(state) {
                Ok(t) => t,
                Err(e) => return Err(e),
            };
            let maybe_comma = check_symbol(state, Symbol::Comma);
            let must_end_here = maybe_comma.is_none();
            if must_end_here {
                pairs.push((node_t, maybe_comma));
                let ending_delim = match state.take_symbol(Symbol::RParen) {
                    Ok(t) => t,
                    Err(e) => return Err(e),
                };
                proof {
                    assert(pairs.deep_view() =~= acc0.push((node_t@, None)));
                    assert(acc0 + seq![(node_t@, None::<TokenV>)] =~= pairs.deep_view());
                }
                return Ok(DelimitedPunctuated::new(pairs, starting_delim, ending_delim));
            }
            let ghost comma_v = maybe_comma.deep_view();
            pairs.push((node_t, maybe_comma));
            proof {
                assert(pairs.deep_view() =~= acc0.push((node_t@, comma_v)));
                assert(pairs.deep_view() =~= acc0 + seq![(node_t@, comma_v)]);
                assert forall|rest: Seq<(FnArgV, Option<TokenV>)>| true implies (acc0 + (seq![
                    (node_t@, comma_v),
                ] + rest)) =~= (pairs.deep_view() + rest) by {}
            }
        }
    }
}

impl FuncDef {
    /// Reads a function-signature declaration: a return type, the
    /// function's name, the double-colon separator and the argument list. A
    /// first token that cannot begin the rule is reported as an expectation
    /// of the rule itself.
    pub fn parse(state: &mut ParserState) -> (r: Result<FuncDef, ParseError>)
        requires
            old(state).wf(),
        ensures
            final(state).wf(),
            final(state).toks() == old(state).toks(),
            final(state).pos() >= old(state).pos(),
            match r {
                Ok(node) => spec_parse_func_def(old(state).toks(), old(state).pos()) == Ok::<
                    _,
                    ParseErrorV,
                >((node@, final(state).pos())),
                Err(e) => spec_parse_func_def(old(state).toks(), old(state).pos()) == Err::<
                    (FuncDefV, int),
                    _,
                >(e@),
            },
    {
        if state.peek().kind() != TokenKind::Identifier {
            return Err(
                ParseError {
                    found: state.peek().clone(),
                    expectation: Expectation::Node("function definition"),
                },
            );
        }
        let ty = match Type::parse(state) {
            Ok(t) => t,
            Err(e) => return Err(e),
        };
        let ident = match state.take_identifier() {
            Ok(t) => t,
            Err(e) => return Err(e),
        };
        let two_colons = match state.take_symbol(Symbol::TwoColons) {
            Ok(t) => t,
            Err(e) => return Err(e),
        };
        match DelimitedPunctuated::parse(state) {
            Ok(args) => Ok(FuncDef { ty, ident, two_colons, args }),
            Err(e) => Err(e),
        }
    }
}

} // verus!
