use lox_core::ast::{Expression, Literal, Statement};
use lox_core::parser::{Parser, ParserError};

#[test]
fn pretty_print_precedence() {
    let mut parser = Parser::new("(1 + 2) * 3");
    let expr = parser.parse().expect("expression should parse");
    assert_eq!(expr.display_string(), "(* (group (+ 1.0 2.0)) 3.0)");
}

#[test]
fn pretty_print_unary_and_literals() {
    let mut parser = Parser::new("-4.5 == !true");
    let expr = parser.parse().expect("expression should parse");
    assert_eq!(expr.display_string(), "(== (- 4.5) (! true))");
}

#[test]
fn pretty_print_nil_and_string() {
    let mut parser = Parser::new("nil");
    assert_eq!(parser.parse().unwrap().display_string(), "nil");
    let mut parser2 = Parser::new("\"abc\"");
    assert_eq!(parser2.parse().unwrap().display_string(), "abc");
}

#[test]
fn literal_round_trip_for_booleans_and_nil() {
    // Re-parsing the canonical print of a boolean or nil literal yields the
    // same tree.
    for source in ["true", "false", "nil"] {
        let mut parser = Parser::new(source);
        let expr = parser.parse().unwrap();
        let printed = expr.display_string();
        let mut reparser = Parser::new(&printed);
        let again = reparser.parse().unwrap();
        assert_eq!(printed, again.display_string());
        match (&expr, &again) {
            (Expression::Literal(a), Expression::Literal(b)) => match (a, b) {
                (Literal::Boolean(x), Literal::Boolean(y)) => assert_eq!(x, y),
                (Literal::Nil, Literal::Nil) => {},
                other => panic!("unexpected literals {:?}", other),
            },
            other => panic!("unexpected trees {:?}", other),
        }
    }
}

#[test]
fn number_literal_round_trip() {
    // The canonical print of a number literal re-parses to the same value.
    let mut parser = Parser::new("42");
    let expr = parser.parse().unwrap();
    let printed = expr.display_string();
    assert_eq!(printed, "42.0");
    let mut reparser = Parser::new(&printed);
    let again = reparser.parse().unwrap();
    match again {
        Expression::Literal(Literal::Number(bits)) => assert_eq!(bits, 42.0f64.to_bits()),
        other => panic!("expected a number literal, got {:?}", other),
    }
}

#[test]
fn unexpected_token_error() {
    let mut parser = Parser::new("1 + ;");
    match parser.parse() {
        Err(ParserError::UnexpectedToken { line, token }) => {
            assert_eq!(line, 1);
            assert_eq!(token, ";");
        },
        other => panic!("expected an unexpected-token error, got {:?}", other),
    }
}

#[test]
fn unexpected_eof_error() {
    let mut parser = Parser::new("1 +");
    match parser.parse() {
        Err(ParserError::UnexpectedEof { line }) => assert_eq!(line, 1),
        other => panic!("expected an end-of-input error, got {:?}", other),
    }
}

#[test]
fn invalid_assignment_target() {
    let mut parser = Parser::new("1 = 2;");
    match parser.parse() {
        Err(ParserError::InvalidAssignmentTarget { line, token }) => {
            assert_eq!(line, 1);
            assert_eq!(token, "=");
        },
        other => panic!("expected an invalid-target error, got {:?}", other),
    }
}

#[test]
fn statements_parse_in_order() {
    let mut parser = Parser::new("var a = 1; print a; { a = 2; }");
    let stmts = parser.parse_statements().expect("program should parse");
    assert_eq!(stmts.len(), 3);
    assert!(matches!(stmts[0], Statement::Var { .. }));
    assert!(matches!(stmts[1], Statement::Print(_)));
    assert!(matches!(stmts[2], Statement::Block(_)));
    assert!(!parser.had_error());
}

#[test]
fn first_error_is_reported_and_flagged() {
    let mut parser = Parser::new("var = 1; print 2;");
    let result = parser.parse_statements();
    assert!(result.is_err());
    assert!(parser.had_error());
}

#[test]
fn class_declaration_with_superclass_parses() {
    let mut parser = Parser::new("class B < A { m(x) { return x; } }");
    let stmts = parser.parse_statements().expect("class should parse");
    match &stmts[0] {
        Statement::Class { name, superclass, methods } => {
            assert_eq!(name, "B");
            assert_eq!(superclass.as_deref(), Some("A"));
            assert_eq!(methods.len(), 1);
        },
        other => panic!("expected a class, got {:?}", other),
    }
}

#[test]
fn too_many_arguments_is_a_parse_error() {
    let mut args = String::from("f(");
    for i in 0..256 {
        if i > 0 {
            args.push(',');
        }
        args.push('1');
    }
    args.push_str(");");
    let mut parser = Parser::new(&args);
    match parser.parse_statements() {
        Err(ParserError::Message(msg)) => {
            assert_eq!(msg, "Cannot have more than 255 arguments.");
        },
        other => panic!("expected the argument-limit error, got {:?}", other),
    }
}

#[test]
fn assignment_through_property_parses() {
    let mut parser = Parser::new("a.b = 3");
    let expr = parser.parse().expect("expression should parse");
    assert!(matches!(expr, Expression::SetProp { .. }));
}
