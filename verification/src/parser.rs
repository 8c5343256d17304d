//! The parser: recursive descent with precedence climbing over the token
//! sequence, specified by a family of recursive functions over token views.
//! The top level collects one error per failing statement and goes on; to
//! guarantee progress, a parse that consumed nothing has one token skipped
//! (`step_pos`), so the top-level loop always terminates.

use crate::digits::{all_digits, digits_val};
use crate::error::{err_v, error_view, errors_view, ErrV, Error, ErrorType};
use crate::floats::float_of_dec;
use crate::types::{
    node_view, nodes_view, token_view, tokens_view, Node, NodeV, Token, TokenType, TokenV,
};
use vstd::prelude::*;
use vstd::string::StrSliceExecFns;
use vstd::string::StringExecFns;

verus! {

/// The position a parse moved to, corrected to guarantee progress: if the
/// parse left the position where it was (or out of range), the next token
/// is skipped instead.
pub open spec fn step_pos(ts: Seq<TokenV>, pos: int, p: int) -> int {
    if pos < p && p <= ts.len() {
        p
    } else {
        pos + 1
    }
}

/// As `step_pos`, but a parse that stood still is acceptable.
pub open spec fn step_pos_ge(ts: Seq<TokenV>, pos: int, p: int) -> int {
    if pos <= p && p <= ts.len() {
        p
    } else {
        pos
    }
}

/// Primary expressions: literals, identifiers (possibly called), a
/// parenthesized expression, or a braced scope.
pub open spec fn sp_primary(ts: Seq<TokenV>, pos: int) -> (Result<NodeV, ErrV>, int)
    decreases ts.len() - pos, 1int,
{
    if pos < 0 || pos >= ts.len() {
        (Err(err_v(ErrorType::SyntaxError, "Expected a token."@, 0, 0)), pos)
    } else {
        let t = ts[pos];
        if t.kind == TokenType::Integer {
            if all_digits(t.text) && t.text.len() > 0 && digits_val(t.text) <= i128::MAX as int {
                (Ok(NodeV::IntegerLiteral(digits_val(t.text) as i128)), pos + 1)
            } else {
                (Err(err_v(ErrorType::SyntaxError, "Invalid integer literal"@, t.line, t.column)), pos + 1)
            }
        } else if t.kind == TokenType::Float {
            (Ok(NodeV::FloatLiteral(float_of_dec(t.text))), pos + 1)
        } else if t.kind == TokenType::Identifier {
            if pos + 1 < ts.len() && ts[pos + 1].kind == TokenType::OpenParenthesis {
                let (ar, ap) = sp_arguments(ts, pos + 1);
                match ar {
                    Ok(args) => (
                        Ok(
                            NodeV::FunctionCall {
                                name: Box::new(NodeV::Identifier(t.text)),
                                arguments: Box::new(args),
                            },
                        ),
                        ap,
                    ),
                    Err(e) => (Err(e), ap),
                }
            } else {
                (Ok(NodeV::Identifier(t.text)), pos + 1)
            }
        } else if t.kind == TokenType::OpenParenthesis {
            let (r, p) = sp_expression(ts, pos + 1);
            match r {
                Ok(node) => {
                    if p < 0 || p >= ts.len() {
                        (Err(err_v(ErrorType::SyntaxError, "Expected a ')'"@, 0, 0)), p)
                    } else {
                        let t2 = ts[p];
                        if t2.kind == TokenType::CloseParenthesis {
                            (Ok(node), p + 1)
                        } else {
                            (
                                Err(
                                    err_v(
                                        ErrorType::SyntaxError,
                                        "Expected a ')' found '"@ + t2.text + "'"@,
                                        t2.line,
                                        t2.column,
                                    ),
                                ),
                                p + 1,
                            )
                        }
                    }
                },
                Err(e) => (Err(e), p),
            }
        } else if t.kind == TokenType::OpenBrace {
            let (r, p) = sp_scope_body(ts, pos + 1);
            match r {
                Ok(body) => (Ok(NodeV::Scope { body }), p),
                Err(e) => (Err(e), p),
            }
        } else {
            (
                Err(
                    err_v(
                        ErrorType::SyntaxError,
                        "Unexpected token '"@ + t.text + "'"@,
                        t.line,
                        t.column,
                    ),
                ),
                pos + 1,
            )
        }
    }
}

/// The statements of a braced scope, up to the closing brace.
pub open spec fn sp_scope_body(ts: Seq<TokenV>, pos: int) -> (Result<Seq<NodeV>, ErrV>, int)
    decreases ts.len() - pos, 12int,
{
    if pos < 0 || pos >= ts.len() {
        (Err(err_v(ErrorType::SyntaxError, "Expected a '}'"@, 0, 0)), pos)
    } else if ts[pos].kind == TokenType::CloseBrace {
        (Ok(Seq::empty()), pos + 1)
    } else {
        let (r, p) = sp_node(ts, pos);
        match r {
            Ok(n) => {
                let p2 = step_pos(ts, pos, p);
                let (r2, p3) = sp_scope_body(ts, p2);
                match r2 {
                    Ok(rest) => (Ok(seq![n] + rest), p3),
                    Err(e) => (Err(e), p3),
                }
            },
            Err(e) => (Err(e), p),
        }
    }
}

/// One statement or expression.
pub open spec fn sp_node(ts: Seq<TokenV>, pos: int) -> (Result<NodeV, ErrV>, int)
    decreases ts.len() - pos, 11int,
{
    if pos < 0 || pos >= ts.len() {
        (Err(err_v(ErrorType::SyntaxError, "Expected token"@, 0, 0)), pos)
    } else if ts[pos].kind == TokenType::Keyword {
        sp_statement(ts, pos)
    } else {
        sp_expression(ts, pos)
    }
}

/// A keyword statement: only `let` is known.
pub open spec fn sp_statement(ts: Seq<TokenV>, pos: int) -> (Result<NodeV, ErrV>, int)
    decreases ts.len() - pos, 10int,
{
    if pos < 0 || pos >= ts.len() {
        (Err(err_v(ErrorType::SyntaxError, "Expected token"@, 0, 0)), pos)
    } else {
        let t = ts[pos];
        if t.text == "let"@ {
            sp_variable_declaration(ts, pos)
        } else {
            (
                Err(
                    err_v(
                        ErrorType::NameError,
                        "Found unknown keyword '"@ + t.text + "'"@,
                        t.line,
                        t.column,
                    ),
                ),
                pos,
            )
        }
    }
}

/// A `let` statement: its body must parse as a plain `=` assignment, which
/// is repackaged as a variable declaration; any other shape — including a
/// compound assignment operator such as `+=` — is a syntax error.
pub open spec fn sp_variable_declaration(ts: Seq<TokenV>, pos: int) -> (Result<NodeV, ErrV>, int)
    decreases ts.len() - pos, 9int,
{
    if pos < 0 || pos >= ts.len() {
        (Err(err_v(ErrorType::SyntaxError, "Expected token"@, 0, 0)), pos)
    } else {
        let t = ts[pos];
        let (r, p) = sp_assignment(ts, pos + 1);
        match r {
            Ok(node) => match node {
                NodeV::AssignmentExpression { name, assignment_type, value } => {
                    if assignment_type == '=' {
                        (Ok(NodeV::VariableDeclaration { name, value }), p)
                    } else {
                        (
                            Err(
                                err_v(
                                    ErrorType::SyntaxError,
                                    "Expected variable assignment"@,
                                    t.line,
                                    t.column,
                                ),
                            ),
                            p,
                        )
                    }
                },
                _ => (
                    Err(
                        err_v(
                            ErrorType::SyntaxError,
                            "Expected variable assignment"@,
                            t.line,
                            t.column,
                        ),
                    ),
                    p,
                ),
            },
            Err(e) => (Err(e), p),
        }
    }
}

/// An expression is an assignment.
pub open spec fn sp_expression(ts: Seq<TokenV>, pos: int) -> (Result<NodeV, ErrV>, int)
    decreases ts.len() - pos, 7int,
{
    sp_assignment(ts, pos)
}

/// An additive expression, optionally followed by one assignment operator
/// (plain `=` or a compound such as `+=`) and another additive expression.
pub open spec fn sp_assignment(ts: Seq<TokenV>, pos: int) -> (Result<NodeV, ErrV>, int)
    decreases ts.len() - pos, 6int,
{
    let (r, p) = sp_additive(ts, pos);
    match r {
        Ok(left) => {
            if 0 <= pos <= p && p < ts.len() && ts[p].kind == TokenType::AssignmentOperator {
                let t = ts[p];
                let op = if t.text.len() > 0 {
                    t.text[0]
                } else {
                    '='
                };
                let (r2, p2) = sp_additive(ts, step_pos(ts, pos, p + 1));
                match r2 {
                    Ok(v) => (
                        Ok(
                            NodeV::AssignmentExpression {
                                name: Box::new(left),
                                assignment_type: op,
                                value: Box::new(v),
                            },
                        ),
                        p2,
                    ),
                    Err(e) => (Err(e), p2),
                }
            } else {
                (Ok(left), p)
            }
        },
        Err(e) => (Err(e), p),
    }
}

/// A left-associative chain of `+` and `-` over multiplicative expressions.
pub open spec fn sp_additive(ts: Seq<TokenV>, pos: int) -> (Result<NodeV, ErrV>, int)
    decreases ts.len() - pos, 5int,
{
    let (r, p) = sp_multiplicative(ts, pos);
    match r {
        Ok(left) => sp_additive_rest(ts, step_pos_ge(ts, pos, p), left),
        Err(e) => (Err(e), p),
    }
}

/// The continuation of an additive chain.
pub open spec fn sp_additive_rest(ts: Seq<TokenV>, pos: int, left: NodeV) -> (Result<
    NodeV,
    ErrV,
>, int)
    decreases ts.len() - pos, 4int,
{
    if 0 <= pos < ts.len() && (ts[pos].text == "+"@ || ts[pos].text == "-"@) {
        let op = ts[pos].text[0];
        let (r, p) = sp_multiplicative(ts, pos + 1);
        match r {
            Ok(right) => sp_additive_rest(
                ts,
                step_pos(ts, pos, p),
                NodeV::BinaryExpression {
                    left: Box::new(left),
                    operand: op,
                    right: Box::new(right),
                },
            ),
            Err(e) => (Err(e), p),
        }
    } else {
        (Ok(left), pos)
    }
}

/// A left-associative chain of `*`, `/`, `%` and `^` over primaries.
pub open spec fn sp_multiplicative(ts: Seq<TokenV>, pos: int) -> (Result<NodeV, ErrV>, int)
    decreases ts.len() - pos, 2int,
{
    let (r, p) = sp_primary(ts, pos);
    match r {
        Ok(left) => sp_mult_rest(ts, step_pos_ge(ts, pos, p), left),
        Err(e) => (Err(e), p),
    }
}

/// The continuation of a multiplicative chain.
pub open spec fn sp_mult_rest(ts: Seq<TokenV>, pos: int, left: NodeV) -> (Result<NodeV, ErrV>, int)
    decreases ts.len() - pos, 1int,
{
    if 0 <= pos < ts.len() && (ts[pos].text == "*"@ || ts[pos].text == "/"@ || ts[pos].text == "%"@
        || ts[pos].text == "^"@) {
        let op = ts[pos].text[0];
        let (r, p) = sp_primary(ts, pos + 1);
        match r {
            Ok(right) => sp_mult_rest(
                ts,
                step_pos(ts, pos, p),
                NodeV::BinaryExpression {
                    left: Box::new(left),
                    operand: op,
                    right: Box::new(right),
                },
            ),
            Err(e) => (Err(e), p),
        }
    } else {
        (Ok(left), pos)
    }
}

/// A call's argument list, from its opening parenthesis: empty lists are
/// permitted, and the closing parenthesis is consumed.
pub open spec fn sp_arguments(ts: Seq<TokenV>, pos: int) -> (Result<NodeV, ErrV>, int)
    decreases ts.len() - pos, 10int,
{
    if pos < 0 || pos >= ts.len() {
        (Err(err_v(ErrorType::SyntaxError, "Expected a '('"@, 0, 0)), pos)
    } else {
        let t = ts[pos];
        if t.kind != TokenType::OpenParenthesis {
            (Err(err_v(ErrorType::SyntaxError, "Expected a '('"@, t.line, t.column)), pos + 1)
        } else if pos + 1 >= ts.len() {
            (Err(err_v(ErrorType::SyntaxError, "Expected a value or ')'"@, 0, 0)), pos + 1)
        } else if ts[pos + 1].kind == TokenType::CloseParenthesis {
            (Ok(NodeV::Arguments(Seq::empty())), pos + 2)
        } else {
            let (r, p) = sp_argument_list(ts, pos + 1);
            match r {
                Ok(args) => (Ok(NodeV::Arguments(args)), p),
                Err(e) => (Err(e), p),
            }
        }
    }
}

/// One or more comma-separated expressions, then the closing parenthesis.
pub open spec fn sp_argument_list(ts: Seq<TokenV>, pos: int) -> (Result<Seq<NodeV>, ErrV>, int)
    decreases ts.len() - pos, 9int,
{
    let (r, p) = sp_expression(ts, pos);
    match r {
        Ok(first) => sp_argument_rest(ts, step_pos_ge(ts, pos, p), seq![first]),
        Err(e) => (Err(e), p),
    }
}

/// The continuation of an argument list; a dangling comma is an error, and
/// anything but a comma must be the closing parenthesis.
pub open spec fn sp_argument_rest(ts: Seq<TokenV>, pos: int, acc: Seq<NodeV>) -> (Result<
    Seq<NodeV>,
    ErrV,
>, int)
    decreases ts.len() - pos, 8int,
{
    if 0 <= pos < ts.len() && ts[pos].kind == TokenType::Comma {
        if pos + 1 >= ts.len() {
            (Err(err_v(ErrorType::SyntaxError, "Expected a value"@, 0, 0)), pos + 1)
        } else {
            let (r, p) = sp_expression(ts, pos + 1);
            match r {
                Ok(e) => sp_argument_rest(ts, step_pos(ts, pos, p), acc.push(e)),
                Err(e) => (Err(e), p),
            }
        }
    } else if pos < 0 || pos >= ts.len() {
        (Err(err_v(ErrorType::SyntaxError, "Expected a ')'"@, 0, 0)), pos)
    } else if ts[pos].kind == TokenType::CloseParenthesis {
        (Ok(acc), pos + 1)
    } else {
        (Err(err_v(ErrorType::SyntaxError, "Expected a ')'"@, ts[pos].line, ts[pos].column)), pos)
    }
}

/// Whether an executable parse result and a specification parse result
/// agree, node view against node view, error view against error view.
pub open spec fn node_res_matches(r: Result<Node, Error>, sr: Result<NodeV, ErrV>) -> bool {
    match r {
        Ok(n) => sr == Ok::<NodeV, ErrV>(node_view(n)),
        Err(e) => sr == Err::<NodeV, ErrV>(error_view(e)),
    }
}

/// The whole program: statements until the end-of-input token, collecting
/// the parsed statements and one error per failing statement.
pub open spec fn sp_program(ts: Seq<TokenV>, pos: int) -> (Seq<NodeV>, Seq<ErrV>)
    decreases ts.len() - pos, 13int,
{
    if pos < 0 || pos >= ts.len() || ts[pos].kind == TokenType::EOF {
        (Seq::empty(), Seq::empty())
    } else {
        let (r, p) = sp_node(ts, pos);
        let p2 = step_pos(ts, pos, p);
        let (body, errs) = sp_program(ts, p2);
        match r {
            Ok(n) => (seq![n] + body, errs),
            Err(e) => (body, seq![e] + errs),
        }
    }
}

/// Primary expressions.
#[verifier::rlimit(60)]
fn parse_primary_expression(tokens: &Vec<Token>, pos: usize) -> (r: (Result<Node, Error>, usize))
    requires
        pos <= tokens@.len(),
    ensures
        ({
            let (sr, sp) = sp_primary(tokens_view(tokens@), pos as int);
            node_res_matches(r.0, sr) && r.1 as int == sp && r.1 <= tokens@.len()
        }),
    decreases tokens@.len() - pos, 1int,
{
    let ghost tv = tokens_view(tokens@);
    let n = tokens.len();
    if pos >= n {
        return (
            (
                Err(
                    Error::new(
                        ErrorType::SyntaxError,
                        String::from_str("Expected a token."),
                        0,
                        0,
                    ),
                ),
                pos,
            )
        );
    }
    match &tokens[pos] {
        Token::Token { token_type, value, line, column } => {
            let kind = *token_type;
            let tline = *line;
            let tcol = *column;
            if kind == TokenType::Integer {
                match crate::digits::parse_i128_digits(value.as_str()) {
                    Some(v) => ((Ok(Node::IntegerLiteral(v)), pos + 1)),
                    None => (
                        (
                            Err(
                                Error::new(
                                    ErrorType::SyntaxError,
                                    String::from_str("Invalid integer literal"),
                                    tline,
                                    tcol,
                                ),
                            ),
                            pos + 1,
                        )
                    ),
                }
            } else if kind == TokenType::Float {
                let bits = crate::floats::float_from_dec(value.as_str());
                ((Ok(Node::FloatLiteral(bits)), pos + 1))
            } else if kind == TokenType::Identifier {
                let has_paren = pos + 1 < n && (match &tokens[pos + 1] {
                    Token::Token { token_type: k2, .. } => *k2 == TokenType::OpenParenthesis,
                });
                if has_paren {
                    let (ar, ap) = parse_arguments(tokens, pos + 1);
                    match ar {
                        Ok(args) => {
                            let name_node = Node::Identifier(value.clone());
                            proof {
                                assert(node_view(name_node) == NodeV::Identifier(
                                    name_node.arrow_Identifier_0()@,
                                ));
                            }
                            (
                                (
                                    Ok(
                                        Node::FunctionCall {
                                            name: Box::new(name_node),
                                            arguments: Box::new(args),
                                        },
                                    ),
                                    ap,
                                )
                            )
                        },
                        Err(e) => ((Err(e), ap)),
                    }
                } else {
                    ((Ok(Node::Identifier(value.clone())), pos + 1))
                }
            } else if kind == TokenType::OpenParenthesis {
                let (r0, p) = parse_expression(tokens, pos + 1);
                match r0 {
                    Ok(node) => {
                        if p >= n {
                            (
                                (
                                    Err(
                                        Error::new(
                                            ErrorType::SyntaxError,
                                            String::from_str("Expected a ')'"),
                                            0,
                                            0,
                                        ),
                                    ),
                                    p,
                                )
                            )
                        } else {
                            match &tokens[p] {
                                Token::Token { token_type: k2, value: v2, line: l2, column: c2 } => {
                                    if *k2 == TokenType::CloseParenthesis {
                                        ((Ok(node), p + 1))
                                    } else {
                                        let mut msg = String::from_str("Expected a ')' found '");
                                        msg.append(v2.as_str());
                                        msg.append("'");
                                        (
                                            (
                                                Err(
                                                    Error::new(ErrorType::SyntaxError, msg, *l2, *c2),
                                                ),
                                                p + 1,
                                            )
                                        )
                                    }
                                },
                            }
                        }
                    },
                    Err(e) => ((Err(e), p)),
                }
            } else if kind == TokenType::OpenBrace {
                let (r0, p) = parse_scope_body(tokens, pos + 1);
                match r0 {
                    Ok(body) => ((Ok(Node::Scope { body }), p)),
                    Err(e) => ((Err(e), p)),
                }
            } else {
                let mut msg = String::from_str("Unexpected token '");
                msg.append(value.as_str());
                msg.append("'");
                ((Err(Error::new(ErrorType::SyntaxError, msg, tline, tcol)), pos + 1))
            }
        },
    }
}

/// The statements of a braced scope.
fn parse_scope_body(tokens: &Vec<Token>, pos: usize) -> (r: (Result<Vec<Node>, Error>, usize))
    requires
        pos <= tokens@.len(),
    ensures
        ({
            let (sr, sp) = sp_scope_body(tokens_view(tokens@), pos as int);
            (match r.0 {
                Ok(v) => sr == Ok::<Seq<NodeV>, ErrV>(nodes_view(v@)),
                Err(e) => sr == Err::<Seq<NodeV>, ErrV>(error_view(e)),
            }) && r.1 as int == sp && r.1 <= tokens@.len()
        }),
    decreases tokens@.len() - pos, 12int,
{
    let ghost tv = tokens_view(tokens@);
    let n = tokens.len();
    if pos >= n {
        return (
            (
                Err(Error::new(ErrorType::SyntaxError, String::from_str("Expected a '}'"), 0, 0)),
                pos,
            )
        );
    }
    let is_close = match &tokens[pos] {
        Token::Token { token_type, .. } => *token_type == TokenType::CloseBrace,
    };
    if is_close {
        let empty: Vec<Node> = Vec::new();
        proof {
            assert(nodes_view(empty@) =~= Seq::<NodeV>::empty());
        }
        return ((Ok(empty), pos + 1));
    }
    let (r0, p) = parse(tokens, pos);
    match r0 {
        Ok(node) => {
            let p2 = if pos < p && p <= n {
                p
            } else {
                pos + 1
            };
            let (r2, p3) = parse_scope_body(tokens, p2);
            match r2 {
                Ok(rest) => {
                    let ghost restv = rest@;
                    let mut body = rest;
                    body.insert(0, node);
                    proof {
                        assert(body@ =~= seq![node] + restv);
                        crate::types::lemma_nodes_view_concat(seq![node], restv);
                        assert(seq![node].drop_last() =~= Seq::<Node>::empty());
                        assert(nodes_view(Seq::<Node>::empty()) =~= Seq::<NodeV>::empty());
                        assert(nodes_view(seq![node]) =~= seq![node_view(node)]);
                        assert(nodes_view(body@) =~= seq![node_view(node)] + nodes_view(restv));
                    }
                    ((Ok(body), p3))
                },
                Err(e) => ((Err(e), p3)),
            }
        },
        Err(e) => ((Err(e), p)),
    }
}

/// One statement or expression.
fn parse(tokens: &Vec<Token>, pos: usize) -> (r: (Result<Node, Error>, usize))
    requires
        pos <= tokens@.len(),
    ensures
        ({
            let (sr, sp) = sp_node(tokens_view(tokens@), pos as int);
            node_res_matches(r.0, sr) && r.1 as int == sp && r.1 <= tokens@.len()
        }),
    decreases tokens@.len() - pos, 11int,
{
    let n = tokens.len();
    if pos >= n {
        return (
            (
                Err(Error::new(ErrorType::SyntaxError, String::from_str("Expected token"), 0, 0)),
                pos,
            )
        );
    }
    let is_keyword = match &tokens[pos] {
        Token::Token { token_type, .. } => *token_type == TokenType::Keyword,
    };
    if is_keyword {
        parse_statement(tokens, pos)
    } else {
        parse_expression(tokens, pos)
    }
}

/// A keyword statement: only `let` is known.
fn parse_statement(tokens: &Vec<Token>, pos: usize) -> (r: (Result<Node, Error>, usize))
    requires
        pos <= tokens@.len(),
    ensures
        ({
            let (sr, sp) = sp_statement(tokens_view(tokens@), pos as int);
            node_res_matches(r.0, sr) && r.1 as int == sp && r.1 <= tokens@.len()
        }),
    decreases tokens@.len() - pos, 10int,
{
    let n = tokens.len();
    if pos >= n {
        return (
            (
                Err(Error::new(ErrorType::SyntaxError, String::from_str("Expected token"), 0, 0)),
                pos,
            )
        );
    }
    match &tokens[pos] {
        Token::Token { value, line, column, .. } => {
            let kw = String::from_str("let");
            if *value == kw {
                parse_variable_declaration_expression(tokens, pos)
            } else {
                let mut msg = String::from_str("Found unknown keyword '");
                msg.append(value.as_str());
                msg.append("'");
                ((Err(Error::new(ErrorType::NameError, msg, *line, *column)), pos))
            }
        },
    }
}

/// A `let` statement.
fn parse_variable_declaration_expression(tokens: &Vec<Token>, pos: usize) -> (r: (Result<
    Node,
    Error,
>, usize))
    requires
        pos <= tokens@.len(),
    ensures
        ({
            let (sr, sp) = sp_variable_declaration(tokens_view(tokens@), pos as int);
            node_res_matches(r.0, sr) && r.1 as int == sp && r.1 <= tokens@.len()
        }),
    decreases tokens@.len() - pos, 9int,
{
    let n = tokens.len();
    if pos >= n {
        return (
            (
                Err(Error::new(ErrorType::SyntaxError, String::from_str("Expected token"), 0, 0)),
                pos,
            )
        );
    }
    let (tline, tcol) = match &tokens[pos] {
        Token::Token { line, column, .. } => (*line, *column),
    };
    let (r0, p) = parse_assignment_expression(tokens, pos + 1);
    match r0 {
        Ok(node) => {
            match node {
                Node::AssignmentExpression { name, assignment_type, value } => {
                    if assignment_type == '=' {
                        ((Ok(Node::VariableDeclaration { name, value }), p))
                    } else {
                        (
                            (
                                Err(
                                    Error::new(
                                        ErrorType::SyntaxError,
                                        String::from_str("Expected variable assignment"),
                                        tline,
                                        tcol,
                                    ),
                                ),
                                p,
                            )
                        )
                    }
                },
                _ => (
                    (
                        Err(
                            Error::new(
                                ErrorType::SyntaxError,
                                String::from_str("Expected variable assignment"),
                                tline,
                                tcol,
                            ),
                        ),
                        p,
                    )
                ),
            }
        },
        Err(e) => ((Err(e), p)),
    }
}

/// An expression is an assignment.
fn parse_expression(tokens: &Vec<Token>, pos: usize) -> (r: (Result<Node, Error>, usize))
    requires
        pos <= tokens@.len(),
    ensures
        ({
            let (sr, sp) = sp_expression(tokens_view(tokens@), pos as int);
            node_res_matches(r.0, sr) && r.1 as int == sp && r.1 <= tokens@.len()
        }),
    decreases tokens@.len() - pos, 7int,
{
    parse_assignment_expression(tokens, pos)
}

/// An additive expression, optionally followed by an assignment operator
/// and another additive expression.
fn parse_assignment_expression(tokens: &Vec<Token>, pos: usize) -> (r: (Result<
    Node,
    Error,
>, usize))
    requires
        pos <= tokens@.len(),
    ensures
        ({
            let (sr, sp) = sp_assignment(tokens_view(tokens@), pos as int);
            node_res_matches(r.0, sr) && r.1 as int == sp && r.1 <= tokens@.len()
        }),
    decreases tokens@.len() - pos, 6int,
{
    let ghost tv = tokens_view(tokens@);
    let n = tokens.len();
    let (r0, p) = parse_additive_expression(tokens, pos);
    match r0 {
        Ok(left) => {
            let is_assign = pos <= p && p < n && (match &tokens[p] {
                Token::Token { token_type, .. } => *token_type == TokenType::AssignmentOperator,
            });
            if is_assign {
                let op = match &tokens[p] {
                    Token::Token { value, .. } => {
                        if value.as_str().unicode_len() > 0 {
                            value.as_str().get_char(0)
                        } else {
                            '='
                        }
                    },
                };
                let q = if pos < p + 1 && p + 1 <= n {
                    p + 1
                } else {
                    pos + 1
                };
                let (r2, p2) = parse_additive_expression(tokens, q);
                match r2 {
                    Ok(v) => (
                        (
                            Ok(
                                Node::AssignmentExpression {
                                    name: Box::new(left),
                                    assignment_type: op,
                                    value: Box::new(v),
                                },
                            ),
                            p2,
                        )
                    ),
                    Err(e) => ((Err(e), p2)),
                }
            } else {
                ((Ok(left), p))
            }
        },
        Err(e) => ((Err(e), p)),
    }
}

/// A left-associative chain of `+` and `-`.
fn parse_additive_expression(tokens: &Vec<Token>, pos: usize) -> (r: (Result<Node, Error>, usize))
    requires
        pos <= tokens@.len(),
    ensures
        ({
            let (sr, sp) = sp_additive(tokens_view(tokens@), pos as int);
            node_res_matches(r.0, sr) && r.1 as int == sp && r.1 <= tokens@.len()
        }),
    decreases tokens@.len() - pos, 5int,
{
    let n = tokens.len();
    let (r0, p) = parse_multiplicative_expression(tokens, pos);
    match r0 {
        Ok(left) => {
            let q = if pos <= p && p <= n {
                p
            } else {
                pos
            };
            parse_additive_rest(tokens, q, left)
        },
        Err(e) => ((Err(e), p)),
    }
}

/// The continuation of an additive chain.
fn parse_additive_rest(tokens: &Vec<Token>, pos: usize, left: Node) -> (r: (Result<
    Node,
    Error,
>, usize))
    requires
        pos <= tokens@.len(),
    ensures
        ({
            let (sr, sp) = sp_additive_rest(tokens_view(tokens@), pos as int, node_view(left));
            node_res_matches(r.0, sr) && r.1 as int == sp && r.1 <= tokens@.len()
        }),
    decreases tokens@.len() - pos, 4int,
{
    let ghost tv = tokens_view(tokens@);
    let n = tokens.len();
    let op_kind: u8 = if pos < n {
        match &tokens[pos] {
            Token::Token { value, .. } => {
                let plus = String::from_str("+");
                let minus = String::from_str("-");
                if *value == plus {
                    1
                } else if *value == minus {
                    2
                } else {
                    0
                }
            },
        }
    } else {
        0
    };
    if op_kind != 0 {
        let op: char = if op_kind == 1 {
            '+'
        } else {
            '-'
        };
        proof {
            reveal_strlit("+");
            reveal_strlit("-");
            assert(tv[pos as int].text[0] == op);
        }
        let (r0, p) = parse_multiplicative_expression(tokens, pos + 1);
        match r0 {
            Ok(right) => {
                let q = if pos < p && p <= n {
                    p
                } else {
                    pos + 1
                };
                parse_additive_rest(
                    tokens,
                    q,
                    Node::BinaryExpression {
                        left: Box::new(left),
                        operand: op,
                        right: Box::new(right),
                    },
                )
            },
            Err(e) => ((Err(e), p)),
        }
    } else {
        ((Ok(left), pos))
    }
}

/// A left-associative chain of `*`, `/`, `%` and `^`.
fn parse_multiplicative_expression(tokens: &Vec<Token>, pos: usize) -> (r: (Result<
    Node,
    Error,
>, usize))
    requires
        pos <= tokens@.len(),
    ensures
        ({
            let (sr, sp) = sp_multiplicative(tokens_view(tokens@), pos as int);
            node_res_matches(r.0, sr) && r.1 as int == sp && r.1 <= tokens@.len()
        }),
    decreases tokens@.len() - pos, 2int,
{
    let n = tokens.len();
    let (r0, p) = parse_primary_expression(tokens, pos);
    match r0 {
        Ok(left) => {
            let q = if pos <= p && p <= n {
                p
            } else {
                pos
            };
            parse_multiplicative_rest(tokens, q, left)
        },
        Err(e) => ((Err(e), p)),
    }
}

/// The continuation of a multiplicative chain.
fn parse_multiplicative_rest(tokens: &Vec<Token>, pos: usize, left: Node) -> (r: (Result<
    Node,
    Error,
>, usize))
    requires
        pos <= tokens@.len(),
    ensures
        ({
            let (sr, sp) = sp_mult_rest(tokens_view(tokens@), pos as int, node_view(left));
            node_res_matches(r.0, sr) && r.1 as int == sp && r.1 <= tokens@.len()
        }),
    decreases tokens@.len() - pos, 1int,
{
    let ghost tv = tokens_view(tokens@);
    let n = tokens.len();
    let op_kind: u8 = if pos < n {
        match &tokens[pos] {
            Token::Token { value, .. } => {
                let star = String::from_str("*");
                let slash = String::from_str("/");
                let percent = String::from_str("%");
                let caret = String::from_str("^");
                if *value == star {
                    1
                } else if *value == slash {
                    2
                } else if *value == percent {
                    3
                } else if *value == caret {
                    4
                } else {
                    0
                }
            },
        }
    } else {
        0
    };
    if op_kind != 0 {
        let op: char = if op_kind == 1 {
            '*'
        } else if op_kind == 2 {
            '/'
        } else if op_kind == 3 {
            '%'
        } else {
            '^'
        };
        proof {
            reveal_strlit("*");
            reveal_strlit("/");
            reveal_strlit("%");
            reveal_strlit("^");
            assert(tv[pos as int].text[0] == op);
        }
        let (r0, p) = parse_primary_expression(tokens, pos + 1);
        match r0 {
            Ok(right) => {
                let q = if pos < p && p <= n {
                    p
                } else {
                    pos + 1
                };
                parse_multiplicative_rest(
                    tokens,
                    q,
                    Node::BinaryExpression {
                        left: Box::new(left),
                        operand: op,
                        right: Box::new(right),
                    },
                )
            },
            Err(e) => ((Err(e), p)),
        }
    } else {
        ((Ok(left), pos))
    }
}

/// A call's argument list, from its opening parenthesis.
#[verifier::rlimit(60)]
fn parse_arguments(tokens: &Vec<Token>, pos: usize) -> (r: (Result<Node, Error>, usize))
    requires
        pos <= tokens@.len(),
    ensures
        ({
            let (sr, sp) = sp_arguments(tokens_view(tokens@), pos as int);
            node_res_matches(r.0, sr) && r.1 as int == sp && r.1 <= tokens@.len()
        }),
    decreases tokens@.len() - pos, 10int,
{
    let n = tokens.len();
    if pos >= n {
        return (
            (
                Err(Error::new(ErrorType::SyntaxError, String::from_str("Expected a '('"), 0, 0)),
                pos,
            )
        );
    }
    let (kind, tline, tcol) = match &tokens[pos] {
        Token::Token { token_type, line, column, .. } => (*token_type, *line, *column),
    };
    if kind != TokenType::OpenParenthesis {
        return (
            (
                Err(
                    Error::new(
                        ErrorType::SyntaxError,
                        String::from_str("Expected a '('"),
                        tline,
                        tcol,
                    ),
                ),
                pos + 1,
            )
        );
    }
    if pos + 1 >= n {
        return (
            (
                Err(
                    Error::new(
                        ErrorType::SyntaxError,
                        String::from_str("Expected a value or ')'"),
                        0,
                        0,
                    ),
                ),
                pos + 1,
            )
        );
    }
    let next_close = match &tokens[pos + 1] {
        Token::Token { token_type, .. } => *token_type == TokenType::CloseParenthesis,
    };
    if next_close {
        let empty: Vec<Node> = Vec::new();
        proof {
            assert(nodes_view(empty@) =~= Seq::<NodeV>::empty());
        }
        return ((Ok(Node::Arguments(empty)), pos + 2));
    }
    let (r0, p) = parse_argument_list(tokens, pos + 1);
    match r0 {
        Ok(args) => ((Ok(Node::Arguments(args)), p)),
        Err(e) => ((Err(e), p)),
    }
}

/// One or more comma-separated expressions, then the closing parenthesis.
fn parse_argument_list(tokens: &Vec<Token>, pos: usize) -> (r: (Result<Vec<Node>, Error>, usize))
    requires
        pos <= tokens@.len(),
    ensures
        ({
            let (sr, sp) = sp_argument_list(tokens_view(tokens@), pos as int);
            (match r.0 {
                Ok(v) => sr == Ok::<Seq<NodeV>, ErrV>(nodes_view(v@)),
                Err(e) => sr == Err::<Seq<NodeV>, ErrV>(error_view(e)),
            }) && r.1 as int == sp && r.1 <= tokens@.len()
        }),
    decreases tokens@.len() - pos, 9int,
{
    let n = tokens.len();
    let (r0, p) = parse_expression(tokens, pos);
    match r0 {
        Ok(first) => {
            let q = if pos <= p && p <= n {
                p
            } else {
                pos
            };
            let mut acc: Vec<Node> = Vec::new();
            acc.push(first);
            proof {
                assert(acc@.drop_last() =~= Seq::<Node>::empty());
                assert(nodes_view(Seq::<Node>::empty()) =~= Seq::<NodeV>::empty());
                assert(acc@.last() == acc@[0]);
                assert(nodes_view(acc@) =~= seq![node_view(acc@[0])]);
            }
            parse_argument_list_rest(tokens, q, acc)
        },
        Err(e) => ((Err(e), p)),
    }
}

/// The continuation of an argument list.
fn parse_argument_list_rest(tokens: &Vec<Token>, pos: usize, acc: Vec<Node>) -> (r: (Result<
    Vec<Node>,
    Error,
>, usize))
    requires
        pos <= tokens@.len(),
    ensures
        ({
            let (sr, sp) = sp_argument_rest(tokens_view(tokens@), pos as int, nodes_view(acc@));
            (match r.0 {
                Ok(v) => sr == Ok::<Seq<NodeV>, ErrV>(nodes_view(v@)),
                Err(e) => sr == Err::<Seq<NodeV>, ErrV>(error_view(e)),
            }) && r.1 as int == sp && r.1 <= tokens@.len()
        }),
    decreases tokens@.len() - pos, 8int,
{
    let ghost tv = tokens_view(tokens@);
    let n = tokens.len();
    let is_comma = pos < n && (match &tokens[pos] {
        Token::Token { token_type, .. } => *token_type == TokenType::Comma,
    });
    if is_comma {
        if pos + 1 >= n {
            return (
                (
                    Err(
                        Error::new(
                            ErrorType::SyntaxError,
                            String::from_str("Expected a value"),
                            0,
                            0,
                        ),
                    ),
                    pos + 1,
                )
            );
        }
        let (r0, p) = parse_expression(tokens, pos + 1);
        match r0 {
            Ok(e) => {
                let q = if pos < p && p <= n {
                    p
                } else {
                    pos + 1
                };
                let ghost accv = acc@;
                let mut acc2 = acc;
                acc2.push(e);
                proof {
                    assert(acc2@.drop_last() =~= accv);
                    assert(nodes_view(acc2@) =~= nodes_view(accv).push(node_view(acc2@.last())));
                }
                parse_argument_list_rest(tokens, q, acc2)
            },
            Err(e) => ((Err(e), p)),
        }
    } else if pos >= n {
        ((Err(Error::new(ErrorType::SyntaxError, String::from_str("Expected a ')'"), 0, 0)), pos))
    } else {
        let (kind, tline, tcol) = match &tokens[pos] {
            Token::Token { token_type, line, column, .. } => (*token_type, *line, *column),
        };
        if kind == TokenType::CloseParenthesis {
            ((Ok(acc), pos + 1))
        } else {
            (
                (
                    Err(
                        Error::new(
                            ErrorType::SyntaxError,
                            String::from_str("Expected a ')'"),
                            tline,
                            tcol,
                        ),
                    ),
                    pos,
                )
            )
        }
    }
}

/// Turns the token sequence into one top-level scope node plus the list of
/// statement-level parse errors: while the next token is not the
/// end-of-input marker, one statement is parsed; a success joins the
/// program body, a failure adds its error and the parse skips to make
/// progress.
#[verifier::rlimit(60)]
pub fn generate_ast(tokens: Vec<Token>) -> (r: (Node, Vec<Error>))
    ensures
        ({
            let (body, errs) = sp_program(tokens_view(tokens@), 0);
            node_view(r.0) == NodeV::Scope { body } && errors_view(r.1@) == errs
        }),
{
    let ghost tv = tokens_view(tokens@);
    let n = tokens.len();
    let mut program: Vec<Node> = Vec::new();
    let mut errors: Vec<Error> = Vec::new();
    let mut pos: usize = 0;
    proof {
        assert(nodes_view(program@) =~= Seq::<NodeV>::empty());
        assert(errors_view(errors@) =~= Seq::<ErrV>::empty());
        assert(nodes_view(program@) + sp_program(tv, 0).0 =~= sp_program(tv, 0).0);
        assert(errors_view(errors@) + sp_program(tv, 0).1 =~= sp_program(tv, 0).1);
    }
    loop
        invariant
            pos <= n,
            n == tokens@.len(),
            tv == tokens_view(tokens@),
            sp_program(tv, 0).0 == nodes_view(program@) + sp_program(tv, pos as int).0,
            sp_program(tv, 0).1 == errors_view(errors@) + sp_program(tv, pos as int).1,
        ensures
            pos <= n,
            n == tokens@.len(),
            tv == tokens_view(tokens@),
            pos >= n || tv[pos as int].kind == TokenType::EOF,
            sp_program(tv, 0).0 == nodes_view(program@) + sp_program(tv, pos as int).0,
            sp_program(tv, 0).1 == errors_view(errors@) + sp_program(tv, pos as int).1,
        decreases n - pos,
    {
        if pos >= n {
            break ;
        }
        let is_eof = match &tokens[pos] {
            Token::Token { token_type, .. } => *token_type == TokenType::EOF,
        };
        if is_eof {
            break ;
        }
        let (r0, p) = parse(&tokens, pos);
        let p2 = if pos < p && p <= n {
            p
        } else {
            pos + 1
        };
        proof {
            assert(p2 as int == step_pos(tv, pos as int, p as int));
        }
        match r0 {
            Ok(node) => {
                let ghost progv = program@;
                program.push(node);
                proof {
                    assert(program@.drop_last() =~= progv);
                    assert(nodes_view(program@) =~= nodes_view(progv).push(
                        node_view(program@.last()),
                    ));
                    assert(nodes_view(progv) + sp_program(tv, pos as int).0 =~= nodes_view(
                        program@,
                    ) + sp_program(tv, p2 as int).0);
                }
            },
            Err(e) => {
                let ghost errsv = errors@;
                errors.push(e);
                proof {
                    assert(errors@ =~= errsv.push(errors@.last()));
                    assert(errors_view(errors@) =~= errors_view(errsv).push(
                        error_view(errors@.last()),
                    ));
                    assert(errors_view(errsv) + sp_program(tv, pos as int).1 =~= errors_view(
                        errors@,
                    ) + sp_program(tv, p2 as int).1);
                }
            },
        }
        pos = p2;
    }
    proof {
        assert(sp_program(tv, pos as int).0 =~= Seq::<NodeV>::empty());
        assert(sp_program(tv, pos as int).1 =~= Seq::<ErrV>::empty());
        assert(nodes_view(program@) + sp_program(tv, pos as int).0 =~= nodes_view(program@));
        assert(errors_view(errors@) + sp_program(tv, pos as int).1 =~= errors_view(errors@));
    }
    (Node::Scope { body: program }, errors)
}

} // verus!
