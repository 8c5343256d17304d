use minilang::environment::{assign, declare, generate_environment, lookup, Environment};
use minilang::error::{Error, ErrorType};
use minilang::interpreter::{evaluate, evaluate_calculation};
use minilang::lexer::tokenize;
use minilang::parser::generate_ast;
use minilang::types::{Node, RuntimeValue};

fn run_in(src: &str, env: &mut Environment, output: &mut Vec<String>) -> Result<
    RuntimeValue,
    Error,
> {
    let tokens = tokenize(src).expect("lexing failed");
    let (ast, errors) = generate_ast(tokens);
    assert!(errors.is_empty(), "unexpected parse errors");
    evaluate(ast, env, output)
}

fn run(src: &str) -> Result<RuntimeValue, Error> {
    let mut env = generate_environment();
    let mut output: Vec<String> = vec![];
    run_in(src, &mut env, &mut output)
}

#[test]
fn integer_addition_subtraction_multiplication() {
    assert!(matches!(run("2 + 3"), Ok(RuntimeValue::Integer(5))));
    assert!(matches!(run("7 - 2"), Ok(RuntimeValue::Integer(5))));
    assert!(matches!(run("6 * 7"), Ok(RuntimeValue::Integer(42))));
}

#[test]
fn integer_division_always_yields_a_float() {
    match run("8 / 2") {
        Ok(RuntimeValue::Float(bits)) => assert_eq!(bits, 4.0f64.to_bits()),
        other => panic!("8 / 2 must be Float(4.0), got {:?}", other),
    }
}

#[test]
fn int_plus_float_promotes() {
    match run("let a = 3 + 5.0") {
        Ok(RuntimeValue::Float(bits)) => assert_eq!(bits, 8.0f64.to_bits()),
        other => panic!("3 + 5.0 must be Float(8.0), got {:?}", other),
    }
}

#[test]
fn mixed_float_arithmetic_matches_doubles() {
    assert!(matches!(run("5.0 - 3"), Ok(RuntimeValue::Float(b)) if b == 2.0f64.to_bits()));
    assert!(matches!(run("2 * 2.5"), Ok(RuntimeValue::Float(b)) if b == 5.0f64.to_bits()));
    assert!(matches!(run("1.5 + 2.25"), Ok(RuntimeValue::Float(b)) if b == 3.75f64.to_bits()));
    assert!(matches!(run("5.0 / 2.0"), Ok(RuntimeValue::Float(b)) if b == 2.5f64.to_bits()));
}

#[test]
fn trailing_dot_literal_reads_as_a_float() {
    assert!(matches!(run("7. / 2"), Ok(RuntimeValue::Float(b)) if b == 3.5f64.to_bits()));
}

#[test]
fn remainder_truncates_towards_zero() {
    assert!(matches!(run("(0 - 7) % 2"), Ok(RuntimeValue::Integer(-1))));
    assert!(matches!(run("7 % (0 - 2)"), Ok(RuntimeValue::Integer(1))));
}

#[test]
fn seven_over_two_is_three_and_a_half() {
    assert!(matches!(run("let a = 7 / 2"), Ok(RuntimeValue::Float(b)) if b == 3.5f64.to_bits()));
}

#[test]
fn modulo_is_integer_only() {
    assert!(matches!(run("let a = 7 % 2"), Ok(RuntimeValue::Integer(1))));
    match run("let a = 7.0 % 2") {
        Err(e) => assert_eq!(e.error_type, ErrorType::TypeError),
        other => panic!("7.0 % 2 must be a TypeError, got {:?}", other),
    }
    match run("let a = 7 % 2.0") {
        Err(e) => assert_eq!(e.error_type, ErrorType::TypeError),
        other => panic!("7 % 2.0 must be a TypeError, got {:?}", other),
    }
}

#[test]
fn redeclaring_a_name_is_a_name_error() {
    let mut env = generate_environment();
    let mut output: Vec<String> = vec![];
    assert!(run_in("let a = 1", &mut env, &mut output).is_ok());
    match run_in("let a = 2", &mut env, &mut output) {
        Err(e) => {
            assert_eq!(e.error_type, ErrorType::NameError);
            assert_eq!(e.message, "Variable 'a' already declared");
        },
        other => panic!("second declaration must fail, got {:?}", other),
    }
    match lookup(&mut env, "a".to_string()) {
        Some(RuntimeValue::Integer(1)) => {},
        other => panic!("a must keep its first value, got {:?}", other),
    }
}

#[test]
fn assigning_an_undeclared_name_is_a_name_error() {
    match run("a = 1") {
        Err(e) => {
            assert_eq!(e.error_type, ErrorType::NameError);
            assert_eq!(e.message, "'a' is undefined");
        },
        other => panic!("assignment without declaration must fail, got {:?}", other),
    }
}

#[test]
fn reading_an_undeclared_name_is_a_name_error() {
    match run("b + 1") {
        Err(e) => {
            assert_eq!(e.error_type, ErrorType::NameError);
            assert_eq!(e.message, "'b' is undefined");
        },
        other => panic!("reading an unbound name must fail, got {:?}", other),
    }
}

#[test]
fn compound_assignment_updates_in_place() {
    let mut env = generate_environment();
    let mut output: Vec<String> = vec![];
    assert!(run_in("let a = 5", &mut env, &mut output).is_ok());
    assert!(matches!(
        run_in("a += 3", &mut env, &mut output),
        Ok(RuntimeValue::Integer(8))
    ));
    assert!(matches!(lookup(&mut env, "a".to_string()), Some(RuntimeValue::Integer(8))));
}

#[test]
fn empty_scope_evaluates_to_null() {
    let mut env = generate_environment();
    let mut output: Vec<String> = vec![];
    let r = evaluate(Node::Scope { body: vec![] }, &mut env, &mut output);
    assert!(matches!(r, Ok(RuntimeValue::Null)));
    assert!(matches!(run("{ }"), Ok(RuntimeValue::Null)));
}

#[test]
fn scope_evaluates_to_its_last_statement() {
    assert!(matches!(run("let a = 1 2 + 3"), Ok(RuntimeValue::Integer(5))));
    assert!(matches!(run("{ 1 2 }"), Ok(RuntimeValue::Integer(2))));
}

#[test]
fn round_trip_binds_eight() {
    let mut env = generate_environment();
    let mut output: Vec<String> = vec![];
    let r = run_in("let a = (3 + 5)", &mut env, &mut output);
    assert!(matches!(r, Ok(RuntimeValue::Integer(8))));
    assert!(matches!(lookup(&mut env, "a".to_string()), Some(RuntimeValue::Integer(8))));
}

#[test]
fn modulo_by_zero_is_an_error() {
    match run("7 % 0") {
        Err(e) => {
            assert_eq!(e.error_type, ErrorType::Error);
            assert_eq!(e.message, "Modulo by zero");
        },
        other => panic!("7 % 0 must fail, got {:?}", other),
    }
}

#[test]
fn integer_overflow_is_an_error() {
    match run("170141183460469231731687303715884105727 + 1") {
        Err(e) => {
            assert_eq!(e.error_type, ErrorType::Error);
            assert_eq!(e.message, "Integer overflow");
        },
        other => panic!("i128 overflow must fail, got {:?}", other),
    }
}

#[test]
fn caret_operator_is_unsupported() {
    match run("2 ^ 3") {
        Err(e) => {
            assert_eq!(e.error_type, ErrorType::TypeError);
            assert_eq!(e.message, "Unsupported operator");
        },
        other => panic!("'^' must be rejected at evaluation, got {:?}", other),
    }
}

#[test]
fn string_plus_integer_is_a_type_error() {
    let node = Node::BinaryExpression {
        left: Box::new(Node::StringLiteral("abc".to_string())),
        operand: '+',
        right: Box::new(Node::IntegerLiteral(1)),
    };
    let mut env = generate_environment();
    let mut output: Vec<String> = vec![];
    match evaluate(node, &mut env, &mut output) {
        Err(e) => {
            assert_eq!(e.error_type, ErrorType::TypeError);
            assert_eq!(e.message, "Unsupported operand types");
        },
        other => panic!("string + integer must fail, got {:?}", other),
    }
}

#[test]
fn runaway_nesting_hits_the_depth_bound() {
    let src = format!("1{}", " + 1".repeat(400));
    match run(&src) {
        Err(e) => {
            assert_eq!(e.error_type, ErrorType::Error);
            assert_eq!(e.message, "Maximum recursion depth exceeded");
        },
        other => panic!("a 400-term chain must exceed the depth budget, got {:?}", other),
    }
}

#[test]
fn print_collects_one_joined_line() {
    let mut env = generate_environment();
    let mut output: Vec<String> = vec![];
    let r = run_in("print(1, 2)", &mut env, &mut output);
    assert!(matches!(r, Ok(RuntimeValue::Null)));
    assert_eq!(output, vec!["1, 2".to_string()]);
}

#[test]
fn print_renders_floats_as_decimal_text() {
    let mut env = generate_environment();
    let mut output: Vec<String> = vec![];
    assert!(run_in("print(7 / 2)", &mut env, &mut output).is_ok());
    assert_eq!(output, vec!["3.5".to_string()]);
}

#[test]
fn print_with_no_arguments_prints_an_empty_line() {
    let mut env = generate_environment();
    let mut output: Vec<String> = vec![];
    assert!(run_in("print()", &mut env, &mut output).is_ok());
    assert_eq!(output, vec!["".to_string()]);
}

#[test]
fn calling_an_unbound_name_is_a_name_error() {
    match run("foo(1)") {
        Err(e) => assert_eq!(e.error_type, ErrorType::NameError),
        other => panic!("calling an unbound name must fail, got {:?}", other),
    }
}

#[test]
fn calling_a_plain_value_is_a_type_error() {
    let mut env = generate_environment();
    let mut output: Vec<String> = vec![];
    assert!(run_in("let a = 1", &mut env, &mut output).is_ok());
    match run_in("a(2)", &mut env, &mut output) {
        Err(e) => {
            assert_eq!(e.error_type, ErrorType::TypeError);
            assert_eq!(e.message, "Expected a native function");
        },
        other => panic!("calling an integer must fail, got {:?}", other),
    }
}

#[test]
fn environment_operations_have_their_failure_semantics() {
    let mut env = generate_environment();
    assert!(matches!(
        lookup(&mut env, "print".to_string()),
        Some(RuntimeValue::NativeFunction(n)) if n == "print"
    ));
    assert!(lookup(&mut env, "x".to_string()).is_none());
    assert!(declare(&mut env, "x".to_string(), RuntimeValue::Integer(1)).is_ok());
    assert!(declare(&mut env, "x".to_string(), RuntimeValue::Integer(2)).is_err());
    assert!(matches!(
        assign(&mut env, "x".to_string(), RuntimeValue::Integer(3)),
        Ok(RuntimeValue::Integer(3))
    ));
    assert!(matches!(lookup(&mut env, "x".to_string()), Some(RuntimeValue::Integer(3))));
    assert!(assign(&mut env, "y".to_string(), RuntimeValue::Integer(1)).is_err());
}

#[test]
fn evaluate_calculation_follows_the_promotion_table() {
    let r = evaluate_calculation(RuntimeValue::Integer(2), '+', RuntimeValue::Integer(3));
    assert!(matches!(r, Ok(RuntimeValue::Integer(5))));
    let r = evaluate_calculation(RuntimeValue::Integer(1), '/', RuntimeValue::Integer(4));
    assert!(matches!(r, Ok(RuntimeValue::Float(b)) if b == 0.25f64.to_bits()));
    let r = evaluate_calculation(RuntimeValue::Boolean(true), '+', RuntimeValue::Integer(1));
    assert!(matches!(r, Err(e) if e.error_type == ErrorType::TypeError));
}

#[test]
fn values_render_to_their_textual_forms() {
    assert_eq!(RuntimeValue::Null.to_text(), "NULL");
    assert_eq!(RuntimeValue::Integer(-42).to_text(), "-42");
    assert_eq!(RuntimeValue::Integer(i128::MIN).to_text(), format!("{}", i128::MIN));
    assert_eq!(RuntimeValue::Boolean(true).to_text(), "true");
    assert_eq!(RuntimeValue::Boolean(false).to_text(), "false");
    assert_eq!(RuntimeValue::String("hi".to_string()).to_text(), "hi");
    assert_eq!(RuntimeValue::Float(3.5f64.to_bits()).to_text(), "3.5");
    let arr = RuntimeValue::Array(vec![
        RuntimeValue::Integer(1),
        RuntimeValue::Integer(2),
        RuntimeValue::Integer(3),
    ]);
    assert_eq!(arr.to_text(), "1, 2, 3");
    assert_eq!(RuntimeValue::Iterable(vec![]).to_text(), "Iterable");
    assert_eq!(RuntimeValue::Function(vec![], vec![]).to_text(), "Function");
    assert_eq!(
        RuntimeValue::NativeFunction("print".to_string()).to_text(),
        "Native Function: print"
    );
}

#[test]
fn errors_render_with_kind_and_position() {
    let e = Error::new(ErrorType::SyntaxError, "boom".to_string(), 3, 7);
    assert_eq!(e.to_text(), "SyntaxError: boom in line 3 column 7");
}
