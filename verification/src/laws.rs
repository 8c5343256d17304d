//! The arithmetic and evaluation laws of the language, stated over the
//! specification-level evaluator so that they hold for every input.

use crate::interpreter::{
    apply_binop, eval_args, eval_node, eval_seq, float_bin, overflow_err, redecl_err, type_err,
    undef_err, StateV,
};
use crate::error::ErrV;
use crate::floats::{float_div_bits, float_of_int};
use crate::types::{NodeV, ValueV};
use vstd::prelude::*;

verus! {

/// For all integer pairs, `+ - *` yield the integer sum, difference and
/// product whenever they fit in 128 bits (and the overflow error
/// otherwise), while `/` always yields the float quotient of the promoted
/// operands — never an integer, even when the division is exact.
pub proof fn lemma_integer_arithmetic(a: i128, b: i128)
    ensures
        apply_binop('+', ValueV::Integer(a), ValueV::Integer(b)) == (if i128::MIN <= a + b
            <= i128::MAX {
            Ok::<ValueV, ErrV>(ValueV::Integer((a + b) as i128))
        } else {
            Err::<ValueV, ErrV>(overflow_err())
        }),
        apply_binop('-', ValueV::Integer(a), ValueV::Integer(b)) == (if i128::MIN <= a - b
            <= i128::MAX {
            Ok::<ValueV, ErrV>(ValueV::Integer((a - b) as i128))
        } else {
            Err::<ValueV, ErrV>(overflow_err())
        }),
        apply_binop('*', ValueV::Integer(a), ValueV::Integer(b)) == (if i128::MIN <= a * b
            <= i128::MAX {
            Ok::<ValueV, ErrV>(ValueV::Integer((a * b) as i128))
        } else {
            Err::<ValueV, ErrV>(overflow_err())
        }),
        apply_binop('/', ValueV::Integer(a), ValueV::Integer(b)) == Ok::<ValueV, ErrV>(
            ValueV::Float(float_div_bits(float_of_int(a as int), float_of_int(b as int))),
        ),
        forall|v: ValueV|
            apply_binop('/', ValueV::Integer(a), ValueV::Integer(b)) == Ok::<ValueV, ErrV>(v)
                ==> !(v is Integer),
{
}

/// Mixing an integer with a float under `+ - *` or `/` promotes to a
/// float, on whichever side the float stands; `%` with a float on either
/// side is a type error.
pub proof fn lemma_float_promotion(op: char, a: i128, b: u64)
    requires
        op == '+' || op == '-' || op == '*',
    ensures
        apply_binop(op, ValueV::Integer(a), ValueV::Float(b)) == Ok::<ValueV, ErrV>(
            ValueV::Float(float_bin(op, float_of_int(a as int), b)),
        ),
        apply_binop(op, ValueV::Float(b), ValueV::Integer(a)) == Ok::<ValueV, ErrV>(
            ValueV::Float(float_bin(op, b, float_of_int(a as int))),
        ),
        apply_binop('/', ValueV::Integer(a), ValueV::Float(b)) == Ok::<ValueV, ErrV>(
            ValueV::Float(float_div_bits(float_of_int(a as int), b)),
        ),
        apply_binop('/', ValueV::Float(b), ValueV::Integer(a)) == Ok::<ValueV, ErrV>(
            ValueV::Float(float_div_bits(b, float_of_int(a as int))),
        ),
        apply_binop('%', ValueV::Integer(a), ValueV::Float(b)) == Err::<ValueV, ErrV>(type_err()),
        apply_binop('%', ValueV::Float(b), ValueV::Integer(a)) == Err::<ValueV, ErrV>(type_err()),
        apply_binop('%', ValueV::Float(b), ValueV::Float(b)) == Err::<ValueV, ErrV>(type_err()),
{
}

/// Evaluation never unbinds a name: whatever a node does to the state, a
/// name bound before it runs is still bound afterwards (declaration and
/// assignment only add or replace bindings).
pub proof fn lemma_eval_keeps_bindings(n: NodeV, st: StateV, depth: nat, key: Seq<char>)
    requires
        st.env.contains_key(key),
    ensures
        eval_node(n, st, depth).0.env.contains_key(key),
    decreases n,
{
    if depth > 0 {
        let d = (depth - 1) as nat;
        match n {
            NodeV::BinaryExpression { left, operand, right } => {
                lemma_eval_keeps_bindings(*left, st, d, key);
                let (st1, r1) = eval_node(*left, st, d);
                if r1 is Ok {
                    lemma_eval_keeps_bindings(*right, st1, d, key);
                }
            },
            NodeV::AssignmentExpression { name, assignment_type, value } => {
                if *name is Identifier {
                    lemma_eval_keeps_bindings(*value, st, d, key);
                }
            },
            NodeV::VariableDeclaration { name, value } => {
                if *name is Identifier {
                    lemma_eval_keeps_bindings(*value, st, d, key);
                }
            },
            NodeV::Scope { body } => {
                lemma_seq_keeps_bindings(body, st, ValueV::Null, d, key);
            },
            NodeV::Arguments(args) => {
                lemma_args_keeps_bindings(args, st, Seq::empty(), d, key);
            },
            NodeV::FunctionCall { name, arguments } => {
                lemma_eval_keeps_bindings(*name, st, d, key);
                let (st1, rf) = eval_node(*name, st, d);
                match rf {
                    Ok(fv) => {
                        if fv is NativeFunction && *arguments is Arguments {
                            lemma_args_keeps_bindings(
                                arguments.arrow_Arguments_0(),
                                st1,
                                Seq::empty(),
                                d,
                                key,
                            );
                        }
                    },
                    Err(_) => {},
                }
            },
            _ => {},
        }
    }
}

/// As `lemma_eval_keeps_bindings`, for a statement sequence.
pub proof fn lemma_seq_keeps_bindings(
    nodes: Seq<NodeV>,
    st: StateV,
    prev: ValueV,
    depth: nat,
    key: Seq<char>,
)
    requires
        st.env.contains_key(key),
    ensures
        eval_seq(nodes, st, prev, depth).0.env.contains_key(key),
    decreases nodes,
{
    if nodes.len() > 0 {
        lemma_eval_keeps_bindings(nodes[0], st, depth, key);
        let (st1, r) = eval_node(nodes[0], st, depth);
        match r {
            Ok(v) => {
                lemma_seq_keeps_bindings(
                    nodes.subrange(1, nodes.len() as int),
                    st1,
                    v,
                    depth,
                    key,
                );
            },
            Err(_) => {},
        }
    }
}

/// As `lemma_eval_keeps_bindings`, for an argument list.
pub proof fn lemma_args_keeps_bindings(
    nodes: Seq<NodeV>,
    st: StateV,
    acc: Seq<ValueV>,
    depth: nat,
    key: Seq<char>,
)
    requires
        st.env.contains_key(key),
    ensures
        eval_args(nodes, st, acc, depth).0.env.contains_key(key),
    decreases nodes,
{
    if nodes.len() > 0 {
        lemma_eval_keeps_bindings(nodes[0], st, depth, key);
        let (st1, r) = eval_node(nodes[0], st, depth);
        match r {
            Ok(v) => {
                lemma_args_keeps_bindings(
                    nodes.subrange(1, nodes.len() as int),
                    st1,
                    acc.push(v),
                    depth,
                    key,
                );
            },
            Err(_) => {},
        }
    }
}

/// Declaring a name that evaluation has already bound fails with a
/// `NameError` naming the redeclaration, once the declaration's value has
/// evaluated: the first declaration of `nm` leaves it bound, so the same
/// declaration evaluated again from that state is rejected.
pub proof fn lemma_second_declaration_fails(
    nm: Seq<char>,
    val: NodeV,
    st: StateV,
    depth: nat,
)
    requires
        depth > 0,
        eval_node(
            NodeV::VariableDeclaration { name: Box::new(NodeV::Identifier(nm)), value: Box::new(val) },
            st,
            depth,
        ).1 is Ok,
        eval_node(
            val,
            eval_node(
                NodeV::VariableDeclaration {
                    name: Box::new(NodeV::Identifier(nm)),
                    value: Box::new(val),
                },
                st,
                depth,
            ).0,
            (depth - 1) as nat,
        ).1 is Ok,
    ensures
        eval_node(
            NodeV::VariableDeclaration { name: Box::new(NodeV::Identifier(nm)), value: Box::new(val) },
            eval_node(
                NodeV::VariableDeclaration {
                    name: Box::new(NodeV::Identifier(nm)),
                    value: Box::new(val),
                },
                st,
                depth,
            ).0,
            depth,
        ).1 == Err::<ValueV, ErrV>(redecl_err(nm)),
{
    let vd = NodeV::VariableDeclaration {
        name: Box::new(NodeV::Identifier(nm)),
        value: Box::new(val),
    };
    let st1 = eval_node(vd, st, depth).0;
    assert(st1.env.contains_key(nm));
    lemma_eval_keeps_bindings(val, st1, (depth - 1) as nat, nm);
}

/// Assigning to a name that is not bound fails with a `NameError`, once
/// the assigned value has evaluated; this holds for plain and compound
/// assignment alike.
pub proof fn lemma_assignment_to_undeclared_fails(
    nm: Seq<char>,
    op: char,
    val: NodeV,
    st: StateV,
    depth: nat,
)
    requires
        depth > 0,
        eval_node(val, st, (depth - 1) as nat).1 is Ok,
        !eval_node(val, st, (depth - 1) as nat).0.env.contains_key(nm),
    ensures
        eval_node(
            NodeV::AssignmentExpression {
                name: Box::new(NodeV::Identifier(nm)),
                assignment_type: op,
                value: Box::new(val),
            },
            st,
            depth,
        ).1 == Err::<ValueV, ErrV>(undef_err(nm)),
{
}

/// An empty scope evaluates to `Null` and leaves the state unchanged.
pub proof fn lemma_empty_scope(st: StateV, depth: nat)
    requires
        depth > 0,
    ensures
        eval_node(NodeV::Scope { body: Seq::empty() }, st, depth) == (st, Ok::<ValueV, ErrV>(
            ValueV::Null,
        )),
{
    assert(eval_seq(Seq::<NodeV>::empty(), st, ValueV::Null, (depth - 1) as nat) == (
        st,
        Ok::<ValueV, ErrV>(ValueV::Null),
    ));
}

/// A statement sequence splits at its last statement: when everything
/// before the last statement succeeds, the sequence's state and result are
/// those of the last statement evaluated in the state the others left —
/// so a scope with statements evaluates to its last statement's value.
pub proof fn lemma_scope_last_statement(
    body: Seq<NodeV>,
    last: NodeV,
    st: StateV,
    prev: ValueV,
    depth: nat,
)
    ensures
        eval_seq(body.push(last), st, prev, depth) == (match eval_seq(body, st, prev, depth) {
            (st1, Ok(_)) => eval_node(last, st1, depth),
            (st1, Err(e)) => (st1, Err(e)),
        }),
    decreases body.len(),
{
    if body.len() == 0 {
        assert(body.push(last)[0] == last);
        assert(body.push(last).subrange(1, 1) =~= Seq::<NodeV>::empty());
        let (st2, r2) = eval_node(last, st, depth);
        match r2 {
            Ok(v) => {
                assert(eval_seq(Seq::<NodeV>::empty(), st2, v, depth) == (st2, Ok::<
                    ValueV,
                    ErrV,
                >(v)));
            },
            Err(_) => {},
        }
    } else {
        assert(body.push(last)[0] == body[0]);
        let (st1, r1) = eval_node(body[0], st, depth);
        match r1 {
            Ok(v) => {
                assert(body.push(last).subrange(1, body.push(last).len() as int)
                    =~= body.subrange(1, body.len() as int).push(last));
                lemma_scope_last_statement(
                    body.subrange(1, body.len() as int),
                    last,
                    st1,
                    v,
                    depth,
                );
            },
            Err(_) => {},
        }
    }
}

} // verus!
