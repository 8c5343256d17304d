use minilang::error::ErrorType;
use minilang::lexer::tokenize;
use minilang::types::{Token, TokenType};

fn kinds_and_texts(tokens: &[Token]) -> Vec<(TokenType, String, u128, u128)> {
    tokens
        .iter()
        .map(|t| match t {
            Token::Token { token_type, value, line, column } => {
                (*token_type, value.clone(), *line, *column)
            },
        })
        .collect()
}

#[test]
fn empty_input_gives_only_eof() {
    let tokens = tokenize("").expect("lexing failed");
    let ts = kinds_and_texts(&tokens);
    assert_eq!(ts.len(), 1);
    assert_eq!(ts[0].0, TokenType::EOF);
    assert_eq!(ts[0].1, "");
}

#[test]
fn malformed_number_is_rejected() {
    let r = tokenize("1.2.3");
    match r {
        Err(e) => {
            assert_eq!(e.error_type, ErrorType::SyntaxError);
            assert_eq!(e.message, "Number cannot contain more than one decimal.");
        },
        Ok(_) => panic!("a number with two decimal points must not lex"),
    }
}

#[test]
fn unterminated_comment_is_rejected() {
    let r = tokenize("let a = 1 # never closed");
    match r {
        Err(e) => {
            assert_eq!(e.error_type, ErrorType::SyntaxError);
            assert_eq!(e.message, "Comment not closed.");
        },
        Ok(_) => panic!("an open comment must not lex"),
    }
}

#[test]
fn closed_comment_is_skipped() {
    let tokens = tokenize("1 # hidden words ! 2").expect("lexing failed");
    let ts = kinds_and_texts(&tokens);
    assert_eq!(ts.len(), 3);
    assert_eq!(ts[0].0, TokenType::Integer);
    assert_eq!(ts[0].1, "1");
    assert_eq!(ts[1].0, TokenType::Integer);
    assert_eq!(ts[1].1, "2");
    assert_eq!(ts[2].0, TokenType::EOF);
}

#[test]
fn invalid_character_is_rejected() {
    let r = tokenize("let a = $");
    match r {
        Err(e) => {
            assert_eq!(e.error_type, ErrorType::SyntaxError);
            assert_eq!(e.message, "Invalid character");
        },
        Ok(_) => panic!("'$' must not lex"),
    }
}

#[test]
fn keywords_and_identifiers_are_told_apart() {
    let tokens = tokenize("let x while foo for if else").expect("lexing failed");
    let ts = kinds_and_texts(&tokens);
    let expect = [
        (TokenType::Keyword, "let"),
        (TokenType::Identifier, "x"),
        (TokenType::Keyword, "while"),
        (TokenType::Identifier, "foo"),
        (TokenType::Keyword, "for"),
        (TokenType::Keyword, "if"),
        (TokenType::Keyword, "else"),
        (TokenType::EOF, ""),
    ];
    assert_eq!(ts.len(), expect.len());
    for (got, want) in ts.iter().zip(expect.iter()) {
        assert_eq!(got.0, want.0);
        assert_eq!(got.1, want.1);
    }
}

#[test]
fn integer_and_float_literals_are_classified() {
    let tokens = tokenize("42 4.2 7.").expect("lexing failed");
    let ts = kinds_and_texts(&tokens);
    assert_eq!(ts[0].0, TokenType::Integer);
    assert_eq!(ts[0].1, "42");
    assert_eq!(ts[1].0, TokenType::Float);
    assert_eq!(ts[1].1, "4.2");
    assert_eq!(ts[2].0, TokenType::Float);
    assert_eq!(ts[2].1, "7.");
}

#[test]
fn compound_assignment_operator_is_one_token() {
    let tokens = tokenize("a += 3").expect("lexing failed");
    let ts = kinds_and_texts(&tokens);
    assert_eq!(ts[0].0, TokenType::Identifier);
    assert_eq!(ts[0].1, "a");
    assert_eq!(ts[1].0, TokenType::AssignmentOperator);
    assert_eq!(ts[1].1, "+=");
    assert_eq!(ts[2].0, TokenType::Integer);
    assert_eq!(ts[2].1, "3");
}

#[test]
fn spaced_operator_and_equals_stay_separate() {
    let tokens = tokenize("a + = 3").expect("lexing failed");
    let ts = kinds_and_texts(&tokens);
    assert_eq!(ts[1].0, TokenType::BinaryOperator);
    assert_eq!(ts[1].1, "+");
    assert_eq!(ts[2].0, TokenType::AssignmentOperator);
    assert_eq!(ts[2].1, "=");
}

#[test]
fn bracket_brace_comma_dot_tokens() {
    let tokens = tokenize("( ) [ ] { } , .").expect("lexing failed");
    let ts = kinds_and_texts(&tokens);
    let expect = [
        TokenType::OpenParenthesis,
        TokenType::CloseParenthesis,
        TokenType::OpenBracket,
        TokenType::CloseBracket,
        TokenType::OpenBrace,
        TokenType::CloseBrace,
        TokenType::Comma,
        TokenType::Dot,
        TokenType::EOF,
    ];
    assert_eq!(ts.len(), expect.len());
    for (got, want) in ts.iter().zip(expect.iter()) {
        assert_eq!(got.0, *want);
    }
}

#[test]
fn token_positions_track_lines_and_columns() {
    let tokens = tokenize("let a = 1\n  b").expect("lexing failed");
    let ts = kinds_and_texts(&tokens);
    assert_eq!(ts[0], (TokenType::Keyword, "let".to_string(), 1, 1));
    assert_eq!(ts[1], (TokenType::Identifier, "a".to_string(), 1, 5));
    assert_eq!(ts[2], (TokenType::AssignmentOperator, "=".to_string(), 1, 7));
    assert_eq!(ts[3], (TokenType::Integer, "1".to_string(), 1, 9));
    assert_eq!(ts[4], (TokenType::Identifier, "b".to_string(), 2, 3));
    assert_eq!(ts[5], (TokenType::EOF, "".to_string(), 2, 4));
}

#[test]
fn identifier_may_contain_digits_and_underscores() {
    let tokens = tokenize("x1_y2").expect("lexing failed");
    let ts = kinds_and_texts(&tokens);
    assert_eq!(ts[0].0, TokenType::Identifier);
    assert_eq!(ts[0].1, "x1_y2");
    assert_eq!(ts[1].0, TokenType::EOF);
}
