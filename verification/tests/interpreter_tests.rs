use lox_core::interp::{Interpreter, InterpreterError, Value};
use lox_core::parser::Parser;
use lox_core::ExitCode;

const FUEL: u64 = 1_000_000;

fn run_program(source: &str) -> (Result<(), InterpreterError>, Vec<String>) {
    let mut parser = Parser::new(source);
    let statements = parser.parse_statements().expect("program should parse");
    Interpreter::run(&statements, FUEL)
}

fn run_ok(source: &str) -> Vec<String> {
    let (result, output) = run_program(source);
    assert!(result.is_ok(), "program should run cleanly");
    output
}

#[test]
fn arithmetic_precedence() {
    assert_eq!(run_ok("print 1 + 2 * 3;"), vec!["7"]);
}

#[test]
fn block_shadowing() {
    assert_eq!(run_ok("var a = 1; { var a = 2; print a; } print a;"), vec!["2", "1"]);
}

#[test]
fn recursive_function() {
    let src = "fun f(n) { if (n <= 1) return n; return f(n-1) + f(n-2); } print f(10);";
    assert_eq!(run_ok(src), vec!["55"]);
}

#[test]
fn closure_counter() {
    let src = "fun mk() { var i = 0; fun inc() { i = i + 1; return i; } return inc; } \
               var c = mk(); print c(); print c(); print c();";
    assert_eq!(run_ok(src), vec!["1", "2", "3"]);
}

#[test]
fn inheritance_and_super() {
    let src = "class A { greet() { print \"hi\"; } } \
               class B < A { greet() { super.greet(); print \"yo\"; } } \
               B().greet();";
    assert_eq!(run_ok(src), vec!["hi", "yo"]);
}

#[test]
fn instance_state_through_methods() {
    let src = "class Counter { init(n) { this.n = n; } \
               bump() { this.n = this.n + 1; return this.n; } } \
               var k = Counter(3); print k.bump(); print k.bump();";
    assert_eq!(run_ok(src), vec!["4", "5"]);
}

#[test]
fn top_level_return_is_static_error() {
    let (result, output) = run_program("return 1;");
    assert!(output.is_empty());
    match result {
        Err(InterpreterError::Message(msg, code)) => {
            assert_eq!(msg, "Resolution error: Can't return from top-level code.");
            assert_eq!(code.code(), 65);
        },
        other => panic!("expected a static error, got {:?}", other),
    }
}

#[test]
fn duplicate_local_declaration_is_static_error() {
    let (result, _) = run_program("{ var x = 1; var x = 2; }");
    match result {
        Err(InterpreterError::Message(msg, code)) => {
            assert_eq!(msg, "Resolution error: Already a variable with name 'x' in this scope.");
            assert_eq!(code.code(), 65);
        },
        other => panic!("expected a static error, got {:?}", other),
    }
}

#[test]
fn string_plus_number_is_runtime_error() {
    let (result, _) = run_program("\"abc\" + 1;");
    match result {
        Err(InterpreterError::Message(msg, code)) => {
            assert_eq!(msg, "Unsupported operation");
            assert_eq!(code.code(), 70);
        },
        other => panic!("expected a runtime error, got {:?}", other),
    }
}

#[test]
fn undefined_call_is_runtime_error() {
    let (result, _) = run_program("foo();");
    match result {
        Err(InterpreterError::UndefinedVariable(name)) => {
            assert_eq!(name, "foo");
        },
        other => panic!("expected an undefined variable, got {:?}", other),
    }
}

#[test]
fn own_initializer_read_is_rejected_locally() {
    let (result, _) = run_program("var a = 1; { var a = a; }");
    match result {
        Err(InterpreterError::Message(msg, _)) => {
            assert_eq!(msg, "Resolution error: Can't read local variable in its own initializer");
        },
        other => panic!("expected a static error, got {:?}", other),
    }
}

#[test]
fn earlier_use_in_block_sees_outer_binding() {
    // A use of the outer `x` before a local `var x` in the same block reads
    // the outer binding; only a use inside that `var`'s own initializer is
    // rejected.
    let src = "var x = 1; { print x; var x = 2; print x; } print x;";
    assert_eq!(run_ok(src), vec!["1", "2", "1"]);
}

#[test]
fn closure_sees_binding_not_snapshot() {
    let src = "var g = 0; fun get() { return g; } g = 5; print get();";
    assert_eq!(run_ok(src), vec!["5"]);
}

#[test]
fn string_concatenation() {
    assert_eq!(run_ok("print \"foo\" + \"bar\";"), vec!["foobar"]);
}

#[test]
fn logical_operators_return_operands() {
    assert_eq!(run_ok("print 1 and 2; print nil or \"x\"; print false or nil;"), vec![
        "2", "x", "nil",
    ]);
}

#[test]
fn truthiness_of_zero_and_empty_string() {
    assert_eq!(run_ok("if (0) print \"zero\"; if (\"\") print \"empty\"; if (nil) print \"nil\";"),
        vec!["zero", "empty"]);
}

#[test]
fn equality_rules() {
    let src = "print nil == nil; print 1 == 1; print 1 == 2; print \"a\" == \"a\"; \
               print 1 == \"1\"; print true == true;";
    assert_eq!(run_ok(src), vec!["true", "true", "false", "true", "false", "true"]);
}

#[test]
fn comparison_and_unary() {
    assert_eq!(run_ok("print 1 < 2; print 2 <= 1; print -3; print !nil; print !0;"), vec![
        "true", "false", "-3", "true", "false",
    ]);
}

#[test]
fn division_and_fractions() {
    assert_eq!(run_ok("print 7 / 2; print 1 / 4 + 0.25;"), vec!["3.5", "0.5"]);
}

#[test]
fn while_loop_counts() {
    assert_eq!(run_ok("var i = 0; while (i < 3) { print i; i = i + 1; }"), vec!["0", "1", "2"]);
}

#[test]
fn for_loop_counts() {
    assert_eq!(run_ok("for (var i = 0; i < 3; i = i + 1) print i;"), vec!["0", "1", "2"]);
}

#[test]
fn if_else_branches() {
    assert_eq!(run_ok("if (1 > 2) print \"a\"; else print \"b\";"), vec!["b"]);
}

#[test]
fn unary_minus_on_string_is_runtime_error() {
    let (result, _) = run_program("-\"abc\";");
    match result {
        Err(InterpreterError::Message(msg, code)) => {
            assert_eq!(msg, "Operand must be a number.");
            assert_eq!(code.code(), 70);
        },
        other => panic!("expected a runtime error, got {:?}", other),
    }
}

#[test]
fn arity_mismatch_message() {
    let (result, _) = run_program("fun f(a, b) { return a; } f(1);");
    match result {
        Err(InterpreterError::Message(msg, code)) => {
            assert_eq!(msg, "Expected 2 arguments but got 1.");
            assert_eq!(code.code(), 70);
        },
        other => panic!("expected a runtime error, got {:?}", other),
    }
}

#[test]
fn calling_a_number_is_runtime_error() {
    let (result, _) = run_program("var x = 1; x();");
    match result {
        Err(InterpreterError::Message(msg, _)) => {
            assert_eq!(msg, "Can only call functions and classes.");
        },
        other => panic!("expected a runtime error, got {:?}", other),
    }
}

#[test]
fn property_access_on_number_is_runtime_error() {
    let (result, _) = run_program("var x = 1; x.y;");
    match result {
        Err(InterpreterError::Message(msg, _)) => {
            assert_eq!(msg, "Only instances have properties.");
        },
        other => panic!("expected a runtime error, got {:?}", other),
    }
}

#[test]
fn undefined_property_is_runtime_error() {
    let (result, _) = run_program("class A {} var a = A(); a.missing;");
    match result {
        Err(InterpreterError::Message(msg, _)) => {
            assert_eq!(msg, "Undefined property 'missing'.");
        },
        other => panic!("expected a runtime error, got {:?}", other),
    }
}

#[test]
fn undefined_superclass_is_runtime_error() {
    let (result, _) = run_program("class B < Missing {} ");
    match result {
        Err(InterpreterError::Message(msg, _)) => {
            assert_eq!(msg, "Undefined superclass 'Missing'.");
        },
        other => panic!("expected a runtime error, got {:?}", other),
    }
}

#[test]
fn fields_and_methods_fall_through() {
    let src = "class A { m() { return 10; } } var a = A(); a.m = 99;";
    // Property assignment writes a field; reading it back prefers the field.
    let src2 = "class A { m() { return 10; } } var a = A(); a.v = 99; print a.v; print a.m();";
    let (result, _) = run_program(src);
    assert!(result.is_ok());
    assert_eq!(run_ok(src2), vec!["99", "10"]);
}

#[test]
fn clock_returns_plausible_seconds() {
    let out = run_ok("print clock();");
    let seconds: f64 = out[0].parse().expect("clock output should be numeric");
    assert!(seconds > 1.0e9);
}

#[test]
fn runaway_loop_exhausts_budget() {
    let mut parser = Parser::new("while (true) { 1; }");
    let statements = parser.parse_statements().expect("program should parse");
    let (result, _) = Interpreter::run(&statements, 10_000);
    assert!(matches!(result, Err(InterpreterError::OutOfFuel)));
}

#[test]
fn evaluate_expression_value() {
    let mut parser = Parser::new("2 + 3 * 4");
    let expr = parser.parse().expect("expression should parse");
    let mut interp = Interpreter::new();
    let v = interp.evaluate(&expr, FUEL).expect("expression should evaluate");
    match v {
        Value::Number(bits) => assert_eq!(bits, 14.0f64.to_bits()),
        other => panic!("expected a number, got {:?}", other),
    }
    assert_eq!(interp.display_value(&v), "14");
}

#[test]
fn integral_numbers_print_in_plain_decimal() {
    assert_eq!(run_ok("print 10000; print 100000000; print 0.25; print 0.5;"), vec![
        "10000", "100000000", "0.25", "0.5",
    ]);
}

#[test]
fn function_and_method_values_print_with_names() {
    let out = run_ok(
        "fun f() { return 1; } print f; \
         class A { m() { return 2; } } var a = A(); print a.m; print A; print a; print clock;",
    );
    assert_eq!(out[0], "<fn f>");
    assert_eq!(out[1], "<fn <bound method m of A instance>>");
    assert_eq!(out[2], "A");
    assert_eq!(out[3], "A instance");
    assert_eq!(out[4], "<fn clock>");
}

#[test]
fn global_redeclaration_is_allowed_and_globals_resolve_late() {
    // Top-level redeclaration is no error, and a function body can call a
    // global declared after it, because names bound only globally stay
    // unresolved until runtime.
    let src = "var x = 1; var x = 2; fun get() { return helper(); } \
               fun helper() { return x; } print get();";
    assert_eq!(run_ok(src), vec!["2"]);
}
