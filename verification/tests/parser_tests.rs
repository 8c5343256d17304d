use minilang::error::{Error, ErrorType};
use minilang::lexer::tokenize;
use minilang::parser::generate_ast;
use minilang::types::Node;

fn parse_source(src: &str) -> (Node, Vec<Error>) {
    let tokens = tokenize(src).expect("lexing failed");
    generate_ast(tokens)
}

fn sole_statement(src: &str) -> Node {
    let (ast, errors) = parse_source(src);
    assert!(errors.is_empty(), "unexpected parse errors");
    match ast {
        Node::Scope { mut body } => {
            assert_eq!(body.len(), 1);
            body.remove(0)
        },
        _ => panic!("top level must be a scope"),
    }
}

#[test]
fn declaration_parses_to_variable_declaration() {
    let stmt = sole_statement("let a = 1");
    match stmt {
        Node::VariableDeclaration { name, value } => {
            assert!(matches!(*name, Node::Identifier(n) if n == "a"));
            assert!(matches!(*value, Node::IntegerLiteral(1)));
        },
        _ => panic!("expected a variable declaration"),
    }
}

#[test]
fn multiplication_binds_tighter_than_addition() {
    let stmt = sole_statement("1 + 2 * 3");
    match stmt {
        Node::BinaryExpression { left, operand, right } => {
            assert_eq!(operand, '+');
            assert!(matches!(*left, Node::IntegerLiteral(1)));
            match *right {
                Node::BinaryExpression { left, operand, right } => {
                    assert_eq!(operand, '*');
                    assert!(matches!(*left, Node::IntegerLiteral(2)));
                    assert!(matches!(*right, Node::IntegerLiteral(3)));
                },
                _ => panic!("expected 2 * 3 on the right"),
            }
        },
        _ => panic!("expected a binary expression"),
    }
}

#[test]
fn subtraction_is_left_associative() {
    let stmt = sole_statement("1 - 2 - 3");
    match stmt {
        Node::BinaryExpression { left, operand, right } => {
            assert_eq!(operand, '-');
            assert!(matches!(*right, Node::IntegerLiteral(3)));
            match *left {
                Node::BinaryExpression { left, operand, right } => {
                    assert_eq!(operand, '-');
                    assert!(matches!(*left, Node::IntegerLiteral(1)));
                    assert!(matches!(*right, Node::IntegerLiteral(2)));
                },
                _ => panic!("expected 1 - 2 on the left"),
            }
        },
        _ => panic!("expected a binary expression"),
    }
}

#[test]
fn parentheses_group_the_left_operand() {
    let stmt = sole_statement("(1 + 2) * 3");
    match stmt {
        Node::BinaryExpression { left, operand, right } => {
            assert_eq!(operand, '*');
            assert!(matches!(*right, Node::IntegerLiteral(3)));
            assert!(matches!(*left, Node::BinaryExpression { operand: '+', .. }));
        },
        _ => panic!("expected a binary expression"),
    }
}

#[test]
fn braces_parse_to_a_nested_scope() {
    let stmt = sole_statement("{ 1 2 }");
    match stmt {
        Node::Scope { body } => {
            assert_eq!(body.len(), 2);
            assert!(matches!(body[0], Node::IntegerLiteral(1)));
            assert!(matches!(body[1], Node::IntegerLiteral(2)));
        },
        _ => panic!("expected a scope"),
    }
}

#[test]
fn call_with_arguments_parses() {
    let stmt = sole_statement("print(1, 2)");
    match stmt {
        Node::FunctionCall { name, arguments } => {
            assert!(matches!(*name, Node::Identifier(n) if n == "print"));
            match *arguments {
                Node::Arguments(args) => {
                    assert_eq!(args.len(), 2);
                    assert!(matches!(args[0], Node::IntegerLiteral(1)));
                    assert!(matches!(args[1], Node::IntegerLiteral(2)));
                },
                _ => panic!("expected arguments"),
            }
        },
        _ => panic!("expected a function call"),
    }
}

#[test]
fn empty_argument_list_parses() {
    let stmt = sole_statement("print()");
    match stmt {
        Node::FunctionCall { arguments, .. } => {
            assert!(matches!(*arguments, Node::Arguments(args) if args.is_empty()));
        },
        _ => panic!("expected a function call"),
    }
}

#[test]
fn float_literal_holds_the_double_bits() {
    let stmt = sole_statement("2.5");
    assert!(matches!(stmt, Node::FloatLiteral(bits) if bits == 2.5f64.to_bits()));
}

#[test]
fn missing_close_paren_is_a_syntax_error() {
    let (_, errors) = parse_source("(1");
    assert_eq!(errors.len(), 1);
    assert_eq!(errors[0].error_type, ErrorType::SyntaxError);
}

#[test]
fn unknown_keyword_is_a_name_error() {
    let (_, errors) = parse_source("while");
    assert_eq!(errors.len(), 1);
    assert_eq!(errors[0].error_type, ErrorType::NameError);
    assert_eq!(errors[0].message, "Found unknown keyword 'while'");
}

#[test]
fn let_without_assignment_is_a_syntax_error() {
    let (_, errors) = parse_source("let 5");
    assert_eq!(errors.len(), 1);
    assert_eq!(errors[0].error_type, ErrorType::SyntaxError);
    assert_eq!(errors[0].message, "Expected variable assignment");
}

#[test]
fn let_with_compound_operator_is_a_syntax_error() {
    let (ast, errors) = parse_source("let a += 1");
    assert_eq!(errors.len(), 1);
    assert_eq!(errors[0].error_type, ErrorType::SyntaxError);
    assert_eq!(errors[0].message, "Expected variable assignment");
    match ast {
        Node::Scope { body } => assert!(body.is_empty()),
        _ => panic!("top level must be a scope"),
    }
}

#[test]
fn dangling_comma_is_a_syntax_error() {
    let (_, errors) = parse_source("print(1,)");
    assert_eq!(errors.len(), 1);
    assert_eq!(errors[0].error_type, ErrorType::SyntaxError);
}

#[test]
fn oversized_integer_literal_is_a_syntax_error() {
    let (_, errors) = parse_source("let a = 9999999999999999999999999999999999999999");
    assert_eq!(errors.len(), 1);
    assert_eq!(errors[0].error_type, ErrorType::SyntaxError);
    assert_eq!(errors[0].message, "Invalid integer literal");
}

#[test]
fn largest_integer_literal_still_parses() {
    let stmt = sole_statement("170141183460469231731687303715884105727");
    assert!(matches!(stmt, Node::IntegerLiteral(i128::MAX)));
}

#[test]
fn parsing_continues_after_a_failed_statement() {
    let (ast, errors) = parse_source("let 5 1 + 2");
    assert_eq!(errors.len(), 1);
    match ast {
        Node::Scope { body } => {
            assert_eq!(body.len(), 1);
            assert!(matches!(body[0], Node::BinaryExpression { operand: '+', .. }));
        },
        _ => panic!("top level must be a scope"),
    }
}

#[test]
fn compound_assignment_parses_with_its_operator() {
    let stmt = sole_statement("a += 3");
    match stmt {
        Node::AssignmentExpression { name, assignment_type, value } => {
            assert!(matches!(*name, Node::Identifier(n) if n == "a"));
            assert_eq!(assignment_type, '+');
            assert!(matches!(*value, Node::IntegerLiteral(3)));
        },
        _ => panic!("expected an assignment"),
    }
}
