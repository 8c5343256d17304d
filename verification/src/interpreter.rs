//! The tree-walking evaluator: one recursive dispatch over syntax-tree
//! nodes against the binding table, specified by `eval_node` over views.
//! The machine state a step works on is the environment map plus the lines
//! printed so far; evaluation is fail-fast, and an explicit depth budget
//! turns runaway nesting into an error instead of exhausting the stack.

use crate::environment::{assign, declare, lookup, Environment};
use crate::error::{err_v, error_view, ErrV, Error, ErrorType};
use crate::floats::{
    float_add, float_add_bits, float_div, float_div_bits, float_from_i128, float_mul,
    float_mul_bits, float_of_int, float_sub, float_sub_bits,
};
use crate::types::{
    lemma_nodes_view_index, lemma_nodes_view_len, lemma_values_view_index, lemma_values_view_len,
    node_view, nodes_view, render_list_v, value_view, values_view, Node, NodeV, RuntimeValue,
    ValueV,
};
use vstd::prelude::*;
use vstd::string::StringExecFns;

verus! {

/// The bound on evaluation nesting: deeper trees are rejected with a
/// dedicated error rather than risking the host's call stack.
pub const MAX_EVAL_DEPTH: u64 = 256;

/// The state evaluation acts on: the bindings and the printed lines.
#[verifier::ext_equal]
pub struct StateV {
    pub env: Map<Seq<char>, ValueV>,
    pub out: Seq<Seq<char>>,
}

/// The views of the printed lines.
pub open spec fn outs_view(v: Seq<String>) -> Seq<Seq<char>> {
    v.map(|i: int, s: String| s@)
}

/// The error for exhausted evaluation depth.
pub open spec fn rec_err() -> ErrV {
    err_v(ErrorType::Error, "Maximum recursion depth exceeded"@, 0, 0)
}

/// The error for reading or assigning a name that is not bound.
pub open spec fn undef_err(name: Seq<char>) -> ErrV {
    err_v(ErrorType::NameError, "'"@ + name + "' is undefined"@, 0, 0)
}

/// The error for declaring a name that is already bound.
pub open spec fn redecl_err(name: Seq<char>) -> ErrV {
    err_v(ErrorType::NameError, "Variable '"@ + name + "' already declared"@, 0, 0)
}

/// The error for operand types an operator does not accept.
pub open spec fn type_err() -> ErrV {
    err_v(ErrorType::TypeError, "Unsupported operand types"@, 0, 0)
}

/// The error for an operator character with no semantics (such as `^`).
pub open spec fn op_err() -> ErrV {
    err_v(ErrorType::TypeError, "Unsupported operator"@, 0, 0)
}

/// The error for integer arithmetic leaving the 128-bit signed range.
pub open spec fn overflow_err() -> ErrV {
    err_v(ErrorType::Error, "Integer overflow"@, 0, 0)
}

/// The error for `%` with a zero right operand.
pub open spec fn modzero_err() -> ErrV {
    err_v(ErrorType::Error, "Modulo by zero"@, 0, 0)
}

/// The remainder with truncation towards zero, as the `%` of the host
/// integers computes it.
pub open spec fn trunc_rem(x: int, d: int) -> int {
    if x == 0 {
        0
    } else if x > 0 && d > 0 {
        x % d
    } else if x < 0 && d < 0 {
        -((-x) % (-d))
    } else if x < 0 {
        -((-x) % d)
    } else {
        x % (-d)
    }
}

/// Integer addition, subtraction or multiplication, guarded against
/// leaving the 128-bit signed range.
pub open spec fn int_arith(op: char, a: i128, b: i128) -> Result<ValueV, ErrV> {
    let v = if op == '+' {
        a + b
    } else if op == '-' {
        a - b
    } else {
        a * b
    };
    if i128::MIN <= v <= i128::MAX {
        Ok(ValueV::Integer(v as i128))
    } else {
        Err(overflow_err())
    }
}

/// Float addition, subtraction or multiplication on bit patterns.
pub open spec fn float_bin(op: char, a: u64, b: u64) -> u64 {
    if op == '+' {
        float_add_bits(a, b)
    } else if op == '-' {
        float_sub_bits(a, b)
    } else {
        float_mul_bits(a, b)
    }
}

/// The binary-operator semantics: `+ - *` stay integer on two integers and
/// promote to float when a float is involved; `/` always yields a float;
/// `%` is defined for integers only; every other combination or operator
/// is a `TypeError`.
pub open spec fn apply_binop(op: char, l: ValueV, r: ValueV) -> Result<ValueV, ErrV> {
    if op == '+' || op == '-' || op == '*' {
        match (l, r) {
            (ValueV::Integer(a), ValueV::Integer(b)) => int_arith(op, a, b),
            (ValueV::Integer(a), ValueV::Float(b)) => Ok(
                ValueV::Float(float_bin(op, float_of_int(a as int), b)),
            ),
            (ValueV::Float(a), ValueV::Integer(b)) => Ok(
                ValueV::Float(float_bin(op, a, float_of_int(b as int))),
            ),
            (ValueV::Float(a), ValueV::Float(b)) => Ok(ValueV::Float(float_bin(op, a, b))),
            _ => Err(type_err()),
        }
    } else if op == '/' {
        match (l, r) {
            (ValueV::Integer(a), ValueV::Integer(b)) => Ok(
                ValueV::Float(float_div_bits(float_of_int(a as int), float_of_int(b as int))),
            ),
            (ValueV::Integer(a), ValueV::Float(b)) => Ok(
                ValueV::Float(float_div_bits(float_of_int(a as int), b)),
            ),
            (ValueV::Float(a), ValueV::Integer(b)) => Ok(
                ValueV::Float(float_div_bits(a, float_of_int(b as int))),
            ),
            (ValueV::Float(a), ValueV::Float(b)) => Ok(ValueV::Float(float_div_bits(a, b))),
            _ => Err(type_err()),
        }
    } else if op == '%' {
        match (l, r) {
            (ValueV::Integer(a), ValueV::Integer(b)) => {
                if b == 0 {
                    Err(modzero_err())
                } else if a == i128::MIN && b == -1 {
                    Err(overflow_err())
                } else {
                    Ok(ValueV::Integer(trunc_rem(a as int, b as int) as i128))
                }
            },
            _ => Err(type_err()),
        }
    } else {
        Err(op_err())
    }
}

/// One evaluation step over a node view: the next state and the result.
pub open spec fn eval_node(n: NodeV, st: StateV, depth: nat) -> (StateV, Result<ValueV, ErrV>)
    decreases n,
{
    if depth == 0 {
        (st, Err(rec_err()))
    } else {
        let d = (depth - 1) as nat;
        match n {
            NodeV::StringLiteral(s) => (st, Ok(ValueV::Str(s))),
            NodeV::IntegerLiteral(i) => (st, Ok(ValueV::Integer(i))),
            NodeV::FloatLiteral(b) => (st, Ok(ValueV::Float(b))),
            NodeV::Identifier(name) => {
                if st.env.contains_key(name) {
                    (st, Ok(st.env[name]))
                } else {
                    (st, Err(undef_err(name)))
                }
            },
            NodeV::BinaryExpression { left, operand, right } => {
                let (st1, r1) = eval_node(*left, st, d);
                match r1 {
                    Ok(lv) => {
                        let (st2, r2) = eval_node(*right, st1, d);
                        match r2 {
                            Ok(rv) => (st2, apply_binop(operand, lv, rv)),
                            Err(e) => (st2, Err(e)),
                        }
                    },
                    Err(e) => (st1, Err(e)),
                }
            },
            NodeV::AssignmentExpression { name, assignment_type, value } => {
                match *name {
                    NodeV::Identifier(nm) => {
                        let (st1, rv) = eval_node(*value, st, d);
                        match rv {
                            Ok(v) => {
                                if !st1.env.contains_key(nm) {
                                    (st1, Err(undef_err(nm)))
                                } else {
                                    let newv = if assignment_type == '=' {
                                        Ok(v)
                                    } else {
                                        apply_binop(assignment_type, st1.env[nm], v)
                                    };
                                    match newv {
                                        Ok(w) => (
                                            StateV { env: st1.env.insert(nm, w), ..st1 },
                                            Ok(w),
                                        ),
                                        Err(e) => (st1, Err(e)),
                                    }
                                }
                            },
                            Err(e) => (st1, Err(e)),
                        }
                    },
                    _ => (st, Err(err_v(ErrorType::Error, "Expected an identifier"@, 0, 0))),
                }
            },
            NodeV::VariableDeclaration { name, value } => {
                match *name {
                    NodeV::Identifier(nm) => {
                        let (st1, rv) = eval_node(*value, st, d);
                        match rv {
                            Ok(v) => {
                                if st1.env.contains_key(nm) {
                                    (st1, Err(redecl_err(nm)))
                                } else {
                                    (StateV { env: st1.env.insert(nm, v), ..st1 }, Ok(v))
                                }
                            },
                            Err(e) => (st1, Err(e)),
                        }
                    },
                    _ => (st, Err(err_v(ErrorType::Error, "Expected an identifier"@, 0, 0))),
                }
            },
            NodeV::Scope { body } => eval_seq(body, st, ValueV::Null, d),
            NodeV::Arguments(args) => {
                let (st1, r) = eval_args(args, st, Seq::empty(), d);
                match r {
                    Ok(vs) => (st1, Ok(ValueV::Array(vs))),
                    Err(e) => (st1, Err(e)),
                }
            },
            NodeV::FunctionCall { name, arguments } => {
                let (st1, rf) = eval_node(*name, st, d);
                match rf {
                    Ok(fv) => match fv {
                        ValueV::NativeFunction(nm) => {
                            match *arguments {
                                NodeV::Arguments(args) => {
                                    let (st2, ra) = eval_args(args, st1, Seq::empty(), d);
                                    match ra {
                                        Ok(vs) => {
                                            if nm == "print"@ {
                                                (
                                                    StateV {
                                                        out: st2.out.push(render_list_v(vs)),
                                                        ..st2
                                                    },
                                                    Ok(ValueV::Null),
                                                )
                                            } else {
                                                (
                                                    st2,
                                                    Err(
                                                        err_v(
                                                            ErrorType::Error,
                                                            "Unknown native function '"@ + nm
                                                                + "'"@,
                                                            0,
                                                            0,
                                                        ),
                                                    ),
                                                )
                                            }
                                        },
                                        Err(e) => (st2, Err(e)),
                                    }
                                },
                                _ => (
                                    st1,
                                    Err(
                                        err_v(
                                            ErrorType::Error,
                                            "Expected function arguments"@,
                                            0,
                                            0,
                                        ),
                                    ),
                                ),
                            }
                        },
                        _ => (
                            st1,
                            Err(
                                err_v(
                                    ErrorType::TypeError,
                                    "Expected a native function"@,
                                    0,
                                    0,
                                ),
                            ),
                        ),
                    },
                    Err(e) => (st1, Err(e)),
                }
            },
        }
    }
}

/// A statement sequence: each statement runs against the state the previous
/// one left; the value is the last statement's, `prev` when none remain.
pub open spec fn eval_seq(nodes: Seq<NodeV>, st: StateV, prev: ValueV, depth: nat) -> (
    StateV,
    Result<ValueV, ErrV>,
)
    decreases nodes,
{
    if nodes.len() == 0 {
        (st, Ok(prev))
    } else {
        let (st1, r) = eval_node(nodes[0], st, depth);
        match r {
            Ok(v) => eval_seq(nodes.subrange(1, nodes.len() as int), st1, v, depth),
            Err(e) => (st1, Err(e)),
        }
    }
}

/// An argument list: each argument's value joins the accumulator in order.
pub open spec fn eval_args(nodes: Seq<NodeV>, st: StateV, acc: Seq<ValueV>, depth: nat) -> (
    StateV,
    Result<Seq<ValueV>, ErrV>,
)
    decreases nodes,
{
    if nodes.len() == 0 {
        (st, Ok(acc))
    } else {
        let (st1, r) = eval_node(nodes[0], st, depth);
        match r {
            Ok(v) => eval_args(nodes.subrange(1, nodes.len() as int), st1, acc.push(v), depth),
            Err(e) => (st1, Err(e)),
        }
    }
}

/// Combines two evaluated operands with a binary operator, as
/// `apply_binop` states it.
pub fn evaluate_calculation(left: RuntimeValue, operand: char, right: RuntimeValue) -> (r: Result<
    RuntimeValue,
    Error,
>)
    ensures
        (match r {
            Ok(v) => apply_binop(operand, value_view(left), value_view(right)) == Ok::<
                ValueV,
                ErrV,
            >(value_view(v)),
            Err(e) => apply_binop(operand, value_view(left), value_view(right)) == Err::<
                ValueV,
                ErrV,
            >(error_view(e)),
        }),
{
    if operand == '+' || operand == '-' || operand == '*' {
        match (left, right) {
            (RuntimeValue::Integer(a), RuntimeValue::Integer(b)) => {
                let v = if operand == '+' {
                    a.checked_add(b)
                } else if operand == '-' {
                    a.checked_sub(b)
                } else {
                    a.checked_mul(b)
                };
                match v {
                    Some(x) => Ok(RuntimeValue::Integer(x)),
                    None => Err(
                        Error::new(ErrorType::Error, String::from_str("Integer overflow"), 0, 0),
                    ),
                }
            },
            (RuntimeValue::Integer(a), RuntimeValue::Float(b)) => {
                let fa = float_from_i128(a);
                Ok(RuntimeValue::Float(float_bin_x(operand, fa, b)))
            },
            (RuntimeValue::Float(a), RuntimeValue::Integer(b)) => {
                let fb = float_from_i128(b);
                Ok(RuntimeValue::Float(float_bin_x(operand, a, fb)))
            },
            (RuntimeValue::Float(a), RuntimeValue::Float(b)) => Ok(
                RuntimeValue::Float(float_bin_x(operand, a, b)),
            ),
            _ => Err(
                Error::new(
                    ErrorType::TypeError,
                    String::from_str("Unsupported operand types"),
                    0,
                    0,
                ),
            ),
        }
    } else if operand == '/' {
        match (left, right) {
            (RuntimeValue::Integer(a), RuntimeValue::Integer(b)) => {
                let fa = float_from_i128(a);
                let fb = float_from_i128(b);
                Ok(RuntimeValue::Float(float_div(fa, fb)))
            },
            (RuntimeValue::Integer(a), RuntimeValue::Float(b)) => {
                let fa = float_from_i128(a);
                Ok(RuntimeValue::Float(float_div(fa, b)))
            },
            (RuntimeValue::Float(a), RuntimeValue::Integer(b)) => {
                let fb = float_from_i128(b);
                Ok(RuntimeValue::Float(float_div(a, fb)))
            },
            (RuntimeValue::Float(a), RuntimeValue::Float(b)) => Ok(
                RuntimeValue::Float(float_div(a, b)),
            ),
            _ => Err(
                Error::new(
                    ErrorType::TypeError,
                    String::from_str("Unsupported operand types"),
                    0,
                    0,
                ),
            ),
        }
    } else if operand == '%' {
        match (left, right) {
            (RuntimeValue::Integer(a), RuntimeValue::Integer(b)) => {
                if b == 0 {
                    Err(Error::new(ErrorType::Error, String::from_str("Modulo by zero"), 0, 0))
                } else {
                    match a.checked_rem(b) {
                        Some(x) => {
                            proof {
                                assert(x as int == trunc_rem(a as int, b as int));
                            }
                            Ok(RuntimeValue::Integer(x))
                        },
                        None => Err(
                            Error::new(
                                ErrorType::Error,
                                String::from_str("Integer overflow"),
                                0,
                                0,
                            ),
                        ),
                    }
                }
            },
            _ => Err(
                Error::new(
                    ErrorType::TypeError,
                    String::from_str("Unsupported operand types"),
                    0,
                    0,
                ),
            ),
        }
    } else {
        Err(Error::new(ErrorType::TypeError, String::from_str("Unsupported operator"), 0, 0))
    }
}

/// Float addition, subtraction or multiplication on bit patterns, as
/// `float_bin` names it.
fn float_bin_x(op: char, a: u64, b: u64) -> (r: u64)
    requires
        op == '+' || op == '-' || op == '*',
    ensures
        r == float_bin(op, a, b),
{
    if op == '+' {
        float_add(a, b)
    } else if op == '-' {
        float_sub(a, b)
    } else {
        float_mul(a, b)
    }
}

/// Whether an executable evaluation outcome agrees with a specification
/// outcome.
pub open spec fn eval_res_matches(r: Result<RuntimeValue, Error>, sr: Result<ValueV, ErrV>) -> bool {
    match r {
        Ok(v) => sr == Ok::<ValueV, ErrV>(value_view(v)),
        Err(e) => sr == Err::<ValueV, ErrV>(error_view(e)),
    }
}

/// One evaluation step with an explicit depth budget.
#[verifier::loop_isolation(false)]
fn eval_at(node: &Node, env: &mut Environment, output: &mut Vec<String>, depth: u64) -> (r: Result<
    RuntimeValue,
    Error,
>)
    ensures
        ({
            let (st2, r2) = eval_node(
                node_view(*node),
                StateV { env: old(env)@, out: outs_view(old(output)@) },
                depth as nat,
            );
            final(env)@ == st2.env && outs_view(final(output)@) == st2.out && eval_res_matches(
                r,
                r2,
            )
        }),
    decreases *node,
{
    broadcast use lemma_nodes_view_len, lemma_nodes_view_index, lemma_values_view_len, lemma_values_view_index;

    let ghost st0 = StateV { env: env@, out: outs_view(output@) };
    if depth == 0 {
        return Err(
            Error::new(
                ErrorType::Error,
                String::from_str("Maximum recursion depth exceeded"),
                0,
                0,
            ),
        );
    }
    let d = depth - 1;
    match node {
        Node::StringLiteral(s) => Ok(RuntimeValue::String(s.clone())),
        Node::IntegerLiteral(i) => Ok(RuntimeValue::Integer(*i)),
        Node::FloatLiteral(b) => Ok(RuntimeValue::Float(*b)),
        Node::Identifier(name) => {
            match lookup(env, name.clone()) {
                Some(v) => Ok(v),
                None => {
                    let mut msg = String::from_str("'");
                    msg.append(name.as_str());
                    msg.append("' is undefined");
                    Err(Error::new(ErrorType::NameError, msg, 0, 0))
                },
            }
        },
        Node::BinaryExpression { left, operand, right } => {
            match eval_at(&*left, env, output, d) {
                Ok(lv) => {
                    match eval_at(&*right, env, output, d) {
                        Ok(rv) => evaluate_calculation(lv, *operand, rv),
                        Err(e) => Err(e),
                    }
                },
                Err(e) => Err(e),
            }
        },
        Node::AssignmentExpression { name, assignment_type, value } => {
            match &**name {
                Node::Identifier(nm) => {
                    proof {
                        assert(node_view(**name) == NodeV::Identifier(nm@));
                    }
                    match eval_at(&*value, env, output, d) {
                        Ok(v) => {
                            match lookup(env, nm.clone()) {
                                Some(cur) => {
                                    let newv = if *assignment_type == '=' {
                                        Ok(v)
                                    } else {
                                        evaluate_calculation(cur, *assignment_type, v)
                                    };
                                    match newv {
                                        Ok(w) => {
                                            match assign(env, nm.clone(), w) {
                                                Ok(res) => Ok(res),
                                                Err(e) => Err(e),
                                            }
                                        },
                                        Err(e) => Err(e),
                                    }
                                },
                                None => {
                                    let mut msg = String::from_str("'");
                                    msg.append(nm.as_str());
                                    msg.append("' is undefined");
                                    Err(Error::new(ErrorType::NameError, msg, 0, 0))
                                },
                            }
                        },
                        Err(e) => Err(e),
                    }
                },
                _ => {
                    proof {
                        assert(!(node_view(**name) is Identifier));
                    }
                    Err(
                        Error::new(
                            ErrorType::Error,
                            String::from_str("Expected an identifier"),
                            0,
                            0,
                        ),
                    )
                },
            }
        },
        Node::VariableDeclaration { name, value } => {
            match &**name {
                Node::Identifier(nm) => {
                    proof {
                        assert(node_view(**name) == NodeV::Identifier(nm@));
                    }
                    match eval_at(&*value, env, output, d) {
                        Ok(v) => {
                            let stored = v.clone();
                            match declare(env, nm.clone(), stored) {
                                Ok(_) => Ok(v),
                                Err(e) => Err(e),
                            }
                        },
                        Err(e) => Err(e),
                    }
                },
                _ => {
                    proof {
                        assert(!(node_view(**name) is Identifier));
                    }
                    Err(
                        Error::new(
                            ErrorType::Error,
                            String::from_str("Expected an identifier"),
                            0,
                            0,
                        ),
                    )
                },
            }
        },
        Node::Scope { body } => {
            let ghost bodyv = nodes_view(body@);
            let n = body.len();
            let mut result = RuntimeValue::Null;
            let mut i: usize = 0;
            proof {
                assert(bodyv.len() == body@.len());
                assert(bodyv.subrange(0, bodyv.len() as int) =~= bodyv);
            }
            while i < n
                invariant
                    i <= n,
                    n == body@.len(),
                    bodyv == nodes_view(body@),
                    eval_seq(bodyv, st0, ValueV::Null, d as nat) == eval_seq(
                        bodyv.subrange(i as int, bodyv.len() as int),
                        StateV { env: env@, out: outs_view(output@) },
                        value_view(result),
                        d as nat,
                    ),
                decreases n - i,
            {
                proof {
                    lemma_nodes_view_len(body@);
                    lemma_nodes_view_index(body@, i as int);
                    assert(decreases_to!(*node => *body));
                    assert(decreases_to!(*body => body@[i as int]));
                    assert(bodyv.len() == body@.len());
                    assert(bodyv.subrange(i as int, bodyv.len() as int)[0] == bodyv[i as int]);
                    assert(bodyv.subrange(i as int, bodyv.len() as int).subrange(
                        1,
                        bodyv.len() - i as int,
                    ) =~= bodyv.subrange(i as int + 1, bodyv.len() as int));
                }
                match eval_at(&body[i], env, output, d) {
                    Ok(v) => {
                        result = v;
                    },
                    Err(e) => {
                        return Err(e);
                    },
                }
                i = i + 1;
            }
            proof {
                lemma_nodes_view_len(body@);
                assert(bodyv.subrange(n as int, bodyv.len() as int).len() == 0);
            }
            Ok(result)
        },
        Node::Arguments(args) => {
            match eval_args_at(args, env, output, d) {
                Ok(vs) => {
                    let ghost vsv = values_view(vs@);
                    let arr = RuntimeValue::Array(vs);
                    proof {
                        assert(value_view(arr) == ValueV::Array(vsv));
                    }
                    Ok(arr)
                },
                Err(e) => Err(e),
            }
        },
        Node::FunctionCall { name, arguments } => {
            match eval_at(&*name, env, output, d) {
                Ok(fv) => {
                    match fv {
                        RuntimeValue::NativeFunction(nm) => {
                            match &**arguments {
                                Node::Arguments(args) => {
                                    proof {
                                        assert(node_view(**arguments) == NodeV::Arguments(
                                            nodes_view(args@),
                                        ));
                                    }
                                    match eval_args_at(args, env, output, d) {
                                        Ok(vs) => {
                                            let printkw = String::from_str("print");
                                            if nm == printkw {
                                                let ghost vsv = values_view(vs@);
                                                let arr = RuntimeValue::Array(vs);
                                                proof {
                                                    assert(value_view(arr) == ValueV::Array(vsv));
                                                }
                                                let (line_opt, res) =
                                                    crate::native_functions::nf_print(&arr);
                                                match line_opt {
                                                    Some(line) => {
                                                        let ghost outv = output@;
                                                        output.push(line);
                                                        proof {
                                                            assert(outs_view(output@)
                                                                =~= outs_view(outv).push(
                                                                output@.last()@,
                                                            ));
                                                        }
                                                        Ok(res)
                                                    },
                                                    None => Ok(res),
                                                }
                                            } else {
                                                let mut msg = String::from_str(
                                                    "Unknown native function '",
                                                );
                                                msg.append(nm.as_str());
                                                msg.append("'");
                                                Err(Error::new(ErrorType::Error, msg, 0, 0))
                                            }
                                        },
                                        Err(e) => Err(e),
                                    }
                                },
                                _ => {
                                    proof {
                                        assert(!(node_view(**arguments) is Arguments));
                                    }
                                    Err(
                                        Error::new(
                                            ErrorType::Error,
                                            String::from_str("Expected function arguments"),
                                            0,
                                            0,
                                        ),
                                    )
                                },
                            }
                        },
                        _ => {
                            proof {
                                assert(!(value_view(fv) is NativeFunction));
                            }
                            Err(
                                Error::new(
                                    ErrorType::TypeError,
                                    String::from_str("Expected a native function"),
                                    0,
                                    0,
                                ),
                            )
                        },
                    }
                },
                Err(e) => Err(e),
            }
        },
    }
}

/// Evaluates an argument list in order, collecting the values.
#[verifier::loop_isolation(false)]
fn eval_args_at(args: &Vec<Node>, env: &mut Environment, output: &mut Vec<String>, depth: u64) -> (r:
    Result<Vec<RuntimeValue>, Error>)
    ensures
        ({
            let (st2, r2) = eval_args(
                nodes_view(args@),
                StateV { env: old(env)@, out: outs_view(old(output)@) },
                Seq::empty(),
                depth as nat,
            );
            final(env)@ == st2.env && outs_view(final(output)@) == st2.out && (match r {
                Ok(vs) => r2 == Ok::<Seq<ValueV>, ErrV>(values_view(vs@)),
                Err(e) => r2 == Err::<Seq<ValueV>, ErrV>(error_view(e)),
            })
        }),
    decreases *args,
{
    broadcast use lemma_nodes_view_len, lemma_nodes_view_index, lemma_values_view_len, lemma_values_view_index;

    let ghost st0 = StateV { env: env@, out: outs_view(output@) };
    let ghost argsv = nodes_view(args@);
    let n = args.len();
    let mut values: Vec<RuntimeValue> = Vec::new();
    let mut i: usize = 0;
    proof {
        assert(values_view(values@) =~= Seq::<ValueV>::empty());
        assert(argsv.len() == args@.len());
        assert(argsv.subrange(0, argsv.len() as int) =~= argsv);
    }
    while i < n
        invariant
            i <= n,
            n == args@.len(),
            argsv == nodes_view(args@),
            eval_args(argsv, st0, Seq::empty(), depth as nat) == eval_args(
                argsv.subrange(i as int, argsv.len() as int),
                StateV { env: env@, out: outs_view(output@) },
                values_view(values@),
                depth as nat,
            ),
        decreases n - i,
    {
        proof {
            lemma_nodes_view_len(args@);
            lemma_nodes_view_index(args@, i as int);
            assert(argsv.len() == args@.len());
            assert(argsv.subrange(i as int, argsv.len() as int)[0] == argsv[i as int]);
            assert(argsv.subrange(i as int, argsv.len() as int).subrange(
                1,
                argsv.len() - i as int,
            ) =~= argsv.subrange(i as int + 1, argsv.len() as int));
        }
        match eval_at(&args[i], env, output, depth) {
            Ok(v) => {
                let ghost valsv = values@;
                values.push(v);
                proof {
                    assert(values@.drop_last() =~= valsv);
                    assert(values_view(values@) =~= values_view(valsv).push(
                        value_view(values@.last()),
                    ));
                }
            },
            Err(e) => {
                return Err(e);
            },
        }
        i = i + 1;
    }
    proof {
        lemma_nodes_view_len(args@);
        assert(argsv.subrange(n as int, argsv.len() as int).len() == 0);
    }
    Ok(values)
}

/// Evaluates a syntax tree against the environment: the single entry point
/// of the evaluator. The lines printed by `print` calls are appended to
/// `output` in order; the first error aborts evaluation and is returned,
/// with the environment and output as the already-evaluated part left them.
pub fn evaluate(node: Node, env: &mut Environment, output: &mut Vec<String>) -> (r: Result<
    RuntimeValue,
    Error,
>)
    ensures
        ({
            let (st2, r2) = eval_node(
                node_view(node),
                StateV { env: old(env)@, out: outs_view(old(output)@) },
                MAX_EVAL_DEPTH as nat,
            );
            final(env)@ == st2.env && outs_view(final(output)@) == st2.out && eval_res_matches(
                r,
                r2,
            )
        }),
{
    eval_at(&node, env, output, MAX_EVAL_DEPTH)
}

} // verus!
