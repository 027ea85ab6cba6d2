use lupin::atom::{Atom, Radix, Symbol};
use lupin::error::Expectation;
use lupin::parser_state::ParserState;
use lupin::parsers::{Assignment, Expression, FuncDef};
use lupin::token::{TokenKind, tokenize};
use lupin::{parse, ParseError};

fn parse_assignment(src: &str) -> Result<Assignment, ParseError> {
    parse(tokenize(src))
}

fn parse_func_def(src: &str) -> Result<FuncDef, ParseError> {
    let mut state = ParserState::new(tokenize(src));
    FuncDef::parse(&mut state)
}

fn unwrap_parens(mut expr: &Expression) -> (usize, &Expression) {
    let mut depth = 0;
    while let Expression::Parentheses { inner_expr, .. } = expr {
        depth += 1;
        expr = inner_expr;
    }
    (depth, expr)
}

#[test]
fn assignment_with_decimal_literal() {
    let assignment = parse_assignment("i32 a = 3829").unwrap();
    assert_eq!(assignment.ty.name.as_identifier().as_str(), "i32");
    assert_eq!(assignment.name.as_identifier().as_str(), "a");
    assert_eq!(assignment.assign.as_symbol(), Symbol::Assign);
    match &assignment.value {
        Expression::Literal { value } => match value.as_literal() {
            Atom::Integer(radix, text) => {
                assert_eq!(*radix, Radix::Decimal);
                assert_eq!(text.as_str(), "3829");
            }
            other => panic!("expected an integer literal, found {:?}", other),
        },
        other => panic!("expected a literal expression, found {:?}", other),
    }
}

#[test]
fn func_def_with_two_arguments() {
    let def = parse_func_def("i32 foobarfn :: (u32 a, i16 b)").unwrap();
    assert_eq!(def.ty.name.as_identifier().as_str(), "i32");
    assert_eq!(def.ident.as_identifier().as_str(), "foobarfn");
    assert_eq!(def.two_colons.as_symbol(), Symbol::TwoColons);
    assert_eq!(def.args.starting_delim.as_symbol(), Symbol::LParen);
    assert_eq!(def.args.ending_delim.as_symbol(), Symbol::RParen);
    assert_eq!(def.args.pairs.len(), 2);
    let (first_arg, first_sep) = &def.args.pairs[0];
    assert_eq!(first_arg.ty.name.as_identifier().as_str(), "u32");
    assert_eq!(first_arg.ident.as_identifier().as_str(), "a");
    assert_eq!(first_sep.as_ref().unwrap().as_symbol(), Symbol::Comma);
    let (second_arg, second_sep) = &def.args.pairs[1];
    assert_eq!(second_arg.ty.name.as_identifier().as_str(), "i16");
    assert_eq!(second_arg.ident.as_identifier().as_str(), "b");
    assert!(second_sep.is_none(), "no trailing separator is recorded for the last entry");
}

#[test]
fn func_def_with_empty_argument_list() {
    let def = parse_func_def("tyawesome ffffff :: ()").unwrap();
    assert_eq!(def.ty.name.as_identifier().as_str(), "tyawesome");
    assert_eq!(def.ident.as_identifier().as_str(), "ffffff");
    assert_eq!(def.args.pairs.len(), 0);
}

#[test]
fn func_def_with_trailing_separator_keeps_the_shape() {
    let with_trailing = parse_func_def("i32 f :: (i32 a,)").unwrap();
    assert_eq!(with_trailing.args.pairs.len(), 1);
    let (arg, sep) = &with_trailing.args.pairs[0];
    assert_eq!(arg.ty.name.as_identifier().as_str(), "i32");
    assert_eq!(arg.ident.as_identifier().as_str(), "a");
    assert_eq!(sep.as_ref().unwrap().as_symbol(), Symbol::Comma);

    // structurally equal, modulo the trailing separator being present
    let without_trailing = parse_func_def("i32 f :: (i32 a)").unwrap();
    assert_eq!(without_trailing.args.pairs.len(), with_trailing.args.pairs.len());
    let (same_arg, no_sep) = &without_trailing.args.pairs[0];
    assert_eq!(same_arg.ty.name.as_identifier().as_str(), "i32");
    assert_eq!(same_arg.ident.as_identifier().as_str(), "a");
    assert!(no_sep.is_none());
}

#[test]
fn func_def_stops_at_the_first_unknown_token() {
    let error = parse_func_def("idontknow ok :: (&&)").unwrap_err();
    assert_eq!(error.found.kind(), TokenKind::Unknown);
    assert_eq!(error.found.as_unknown().as_str(), "&");
    assert_eq!(error.found.span().start, 17);
    match &error.expectation {
        Expectation::Node(rule) => assert_eq!(*rule, "function argument"),
        other => panic!("expected a rule expectation, found {:?}", other),
    }
}

#[test]
fn deeply_nested_expression_parses_to_matching_depth() {
    let assignment =
        parse_assignment("i32 foobar = (1 + (hello + (world)) + (((((woahhhh)))) + 567))").unwrap();
    let value = &assignment.value;
    let (depth, top) = match value {
        Expression::Parentheses { inner_expr, .. } => (1, inner_expr.as_ref()),
        other => panic!("expected a parenthesized value, found {:?}", other),
    };
    assert_eq!(depth, 1);
    // 1 + (...) + (...) nests to the right: 1 + ((...) + (...))
    let (one, rest) = match top {
        Expression::Binop { lhs, rhs, .. } => (lhs.as_ref(), rhs.as_ref()),
        other => panic!("expected a binary operation, found {:?}", other),
    };
    assert!(matches!(one, Expression::Literal { .. }));
    let (hello_group, woah_group) = match rest {
        Expression::Binop { lhs, rhs, .. } => (lhs.as_ref(), rhs.as_ref()),
        other => panic!("expected a binary operation, found {:?}", other),
    };
    // (hello + (world))
    let (depth, hello_binop) = unwrap_parens(hello_group);
    assert_eq!(depth, 1);
    let world = match hello_binop {
        Expression::Binop { lhs, rhs, .. } => {
            match lhs.as_ref() {
                Expression::Name { identifier } => {
                    assert_eq!(identifier.as_identifier().as_str(), "hello")
                }
                other => panic!("expected a name, found {:?}", other),
            }
            rhs.as_ref()
        }
        other => panic!("expected a binary operation, found {:?}", other),
    };
    let (depth, world_name) = unwrap_parens(world);
    assert_eq!(depth, 1);
    match world_name {
        Expression::Name { identifier } => assert_eq!(identifier.as_identifier().as_str(), "world"),
        other => panic!("expected a name, found {:?}", other),
    }
    // (((((woahhhh)))) + 567)
    let (depth, woah_binop) = unwrap_parens(woah_group);
    assert_eq!(depth, 1);
    match woah_binop {
        Expression::Binop { lhs, rhs, .. } => {
            let (depth, woah) = unwrap_parens(lhs.as_ref());
            assert_eq!(depth, 4);
            match woah {
                Expression::Name { identifier } => {
                    assert_eq!(identifier.as_identifier().as_str(), "woahhhh")
                }
                other => panic!("expected a name, found {:?}", other),
            }
            match rhs.as_ref() {
                Expression::Literal { value } => match value.as_literal() {
                    Atom::Integer(radix, text) => {
                        assert_eq!(*radix, Radix::Decimal);
                        assert_eq!(text.as_str(), "567");
                    }
                    other => panic!("expected an integer, found {:?}", other),
                },
                other => panic!("expected a literal, found {:?}", other),
            }
        }
        other => panic!("expected a binary operation, found {:?}", other),
    }
}

#[test]
fn operator_chains_nest_to_the_right() {
    let assignment = parse_assignment("u8 x = a + b + c").unwrap();
    match &assignment.value {
        Expression::Binop { lhs, op, rhs } => {
            assert_eq!(op.as_symbol(), Symbol::Plus);
            match lhs.as_ref() {
                Expression::Name { identifier } => {
                    assert_eq!(identifier.as_identifier().as_str(), "a")
                }
                other => panic!("expected a name, found {:?}", other),
            }
            match rhs.as_ref() {
                Expression::Binop { lhs, rhs, .. } => {
                    match lhs.as_ref() {
                        Expression::Name { identifier } => {
                            assert_eq!(identifier.as_identifier().as_str(), "b")
                        }
                        other => panic!("expected a name, found {:?}", other),
                    }
                    match rhs.as_ref() {
                        Expression::Name { identifier } => {
                            assert_eq!(identifier.as_identifier().as_str(), "c")
                        }
                        other => panic!("expected a name, found {:?}", other),
                    }
                }
                other => panic!("chains nest to the right, found {:?}", other),
            }
        }
        other => panic!("expected a binary operation, found {:?}", other),
    }
}

#[test]
fn error_when_the_rule_cannot_begin() {
    let error = parse_assignment("3 x = 1").unwrap_err();
    assert_eq!(error.found.kind(), TokenKind::Literal);
    match &error.expectation {
        Expectation::Node(rule) => assert_eq!(*rule, "assignment"),
        other => panic!("expected a rule expectation, found {:?}", other),
    }

    let error = parse_func_def("3 x :: ()").unwrap_err();
    match &error.expectation {
        Expectation::Node(rule) => assert_eq!(*rule, "function definition"),
        other => panic!("expected a rule expectation, found {:?}", other),
    }
}

#[test]
fn error_names_the_expected_token_kinds() {
    // the variable's name is missing
    let error = parse_assignment("i32 3 = 4").unwrap_err();
    assert_eq!(error.found.kind(), TokenKind::Literal);
    match &error.expectation {
        Expectation::Token(kinds) => assert_eq!(kinds, &vec![TokenKind::Identifier]),
        other => panic!("expected a token-kind expectation, found {:?}", other),
    }

    // the assigned expression is missing: the end of input is an ordinary
    // token that the expression rule rejects
    let error = parse_assignment("i32 a = ").unwrap_err();
    assert_eq!(error.found.kind(), TokenKind::Eof);
    match &error.expectation {
        Expectation::Token(kinds) => assert_eq!(
            kinds,
            &vec![TokenKind::Symbol, TokenKind::Identifier, TokenKind::Literal]
        ),
        other => panic!("expected a token-kind expectation, found {:?}", other),
    }
}

#[test]
fn error_names_the_expected_symbols() {
    let error = parse_assignment("i32 a + 3").unwrap_err();
    assert_eq!(error.found.kind(), TokenKind::Symbol);
    assert_eq!(error.found.as_symbol(), Symbol::Plus);
    match &error.expectation {
        Expectation::Symbol(symbols) => assert_eq!(symbols, &vec![Symbol::Assign]),
        other => panic!("expected a symbol expectation, found {:?}", other),
    }

    // a parenthesized expression missing its closing parenthesis
    let error = parse_assignment("i32 a = (1").unwrap_err();
    assert_eq!(error.found.kind(), TokenKind::Eof);
    match &error.expectation {
        Expectation::Symbol(symbols) => assert_eq!(symbols, &vec![Symbol::RParen]),
        other => panic!("expected a symbol expectation, found {:?}", other),
    }

    // an expression may not begin with a symbol other than a parenthesis
    let error = parse_assignment("i32 a = +").unwrap_err();
    match &error.expectation {
        Expectation::Symbol(symbols) => assert_eq!(symbols, &vec![Symbol::LParen]),
        other => panic!("expected a symbol expectation, found {:?}", other),
    }
}

#[test]
fn parenthesized_value_then_continuation() {
    let assignment = parse_assignment("i32 a = (1) + 2").unwrap();
    match &assignment.value {
        Expression::Binop { lhs, op, rhs } => {
            assert_eq!(op.as_symbol(), Symbol::Plus);
            let (depth, one) = unwrap_parens(lhs.as_ref());
            assert_eq!(depth, 1);
            assert!(matches!(one, Expression::Literal { .. }));
            assert!(matches!(rhs.as_ref(), Expression::Literal { .. }));
        }
        other => panic!("expected a binary operation, found {:?}", other),
    }
}
