//! The data model shared by all stages: tokens, syntax-tree nodes and
//! runtime values, each with a mathematical mirror (`TokenV`, `NodeV`,
//! `ValueV`) in which text is a character sequence and lists are sequences.

use crate::digits::int_text;
use crate::floats::float_text;
use vstd::prelude::*;
use vstd::string::StringExecFns;

verus! {

/// The classification of a token.
#[derive(Clone, Copy, PartialEq, Eq, Structural, Debug)]
pub enum TokenType {
    BinaryOperator,
    Float,
    Integer,
    Identifier,
    Dot,
    OpenParenthesis,
    CloseParenthesis,
    OpenBracket,
    CloseBracket,
    OpenBrace,
    CloseBrace,
    Keyword,
    AssignmentOperator,
    Comma,
    EOF,
}

/// A classified, positioned lexical unit. Lines and columns are 1-based and
/// name the position of the token's first character.
#[derive(Debug)]
pub enum Token {
    Token { token_type: TokenType, value: String, line: u128, column: u128 },
}

/// Mathematical mirror of `Token`.
pub struct TokenV {
    pub kind: TokenType,
    pub text: Seq<char>,
    pub line: nat,
    pub column: nat,
}

/// The view of an executable token.
pub open spec fn token_view(t: Token) -> TokenV {
    match t {
        Token::Token { token_type, value, line, column } => TokenV {
            kind: token_type,
            text: value@,
            line: line as nat,
            column: column as nat,
        },
    }
}

/// The elementwise view of a token sequence.
pub open spec fn tokens_view(ts: Seq<Token>) -> Seq<TokenV> {
    ts.map(|i: int, t: Token| token_view(t))
}

impl Clone for Token {
    fn clone(&self) -> (r: Self)
        ensures
            token_view(r) == token_view(*self),
    {
        match self {
            Token::Token { token_type, value, line, column } => Token::Token {
                token_type: *token_type,
                value: value.clone(),
                line: *line,
                column: *column,
            },
        }
    }
}

/// A node of the abstract syntax tree. The tree is produced by the parser
/// and consumed by the evaluator; float literals hold the IEEE 754 bit
/// pattern of their value.
#[derive(Debug)]
pub enum Node {
    StringLiteral(String),
    FloatLiteral(u64),
    IntegerLiteral(i128),
    Identifier(String),
    BinaryExpression { left: Box<Node>, operand: char, right: Box<Node> },
    AssignmentExpression { name: Box<Node>, assignment_type: char, value: Box<Node> },
    VariableDeclaration { name: Box<Node>, value: Box<Node> },
    Scope { body: Vec<Node> },
    Arguments(Vec<Node>),
    FunctionCall { name: Box<Node>, arguments: Box<Node> },
}

/// Mathematical mirror of `Node`.
pub enum NodeV {
    StringLiteral(Seq<char>),
    FloatLiteral(u64),
    IntegerLiteral(i128),
    Identifier(Seq<char>),
    BinaryExpression { left: Box<NodeV>, operand: char, right: Box<NodeV> },
    AssignmentExpression { name: Box<NodeV>, assignment_type: char, value: Box<NodeV> },
    VariableDeclaration { name: Box<NodeV>, value: Box<NodeV> },
    Scope { body: Seq<NodeV> },
    Arguments(Seq<NodeV>),
    FunctionCall { name: Box<NodeV>, arguments: Box<NodeV> },
}

/// The view of an executable syntax-tree node.
pub open spec fn node_view(n: Node) -> NodeV
    decreases n,
{
    match n {
        Node::StringLiteral(s) => NodeV::StringLiteral(s@),
        Node::FloatLiteral(b) => NodeV::FloatLiteral(b),
        Node::IntegerLiteral(i) => NodeV::IntegerLiteral(i),
        Node::Identifier(s) => NodeV::Identifier(s@),
        Node::BinaryExpression { left, operand, right } => NodeV::BinaryExpression {
            left: Box::new(node_view(*left)),
            operand,
            right: Box::new(node_view(*right)),
        },
        Node::AssignmentExpression { name, assignment_type, value } => NodeV::AssignmentExpression {
            name: Box::new(node_view(*name)),
            assignment_type,
            value: Box::new(node_view(*value)),
        },
        Node::VariableDeclaration { name, value } => NodeV::VariableDeclaration {
            name: Box::new(node_view(*name)),
            value: Box::new(node_view(*value)),
        },
        Node::Scope { body } => NodeV::Scope { body: nodes_view(body@) },
        Node::Arguments(args) => NodeV::Arguments(nodes_view(args@)),
        Node::FunctionCall { name, arguments } => NodeV::FunctionCall {
            name: Box::new(node_view(*name)),
            arguments: Box::new(node_view(*arguments)),
        },
    }
}

/// The elementwise view of a node sequence.
pub open spec fn nodes_view(s: Seq<Node>) -> Seq<NodeV>
    decreases s,
{
    if s.len() == 0 {
        Seq::empty()
    } else {
        nodes_view(s.drop_last()).push(node_view(s.last()))
    }
}

pub broadcast proof fn lemma_nodes_view_len(s: Seq<Node>)
    ensures
        (#[trigger] nodes_view(s)).len() == s.len(),
    decreases s.len(),
{
    if s.len() > 0 {
        lemma_nodes_view_len(s.drop_last());
    }
}

pub broadcast proof fn lemma_nodes_view_index(s: Seq<Node>, i: int)
    requires
        0 <= i < s.len(),
    ensures
        (#[trigger] nodes_view(s)[i]) == node_view(s[i]),
    decreases s.len(),
{
    lemma_nodes_view_len(s);
    lemma_nodes_view_len(s.drop_last());
    if i < s.len() - 1 {
        lemma_nodes_view_index(s.drop_last(), i);
        assert(s.drop_last()[i] == s[i]);
    }
}

pub proof fn lemma_nodes_view_concat(a: Seq<Node>, b: Seq<Node>)
    ensures
        nodes_view(a + b) == nodes_view(a) + nodes_view(b),
    decreases b.len(),
{
    if b.len() == 0 {
        assert(a + b =~= a);
        assert(nodes_view(a) + nodes_view(b) =~= nodes_view(a));
    } else {
        assert((a + b).drop_last() =~= a + b.drop_last());
        assert((a + b).last() == b.last());
        assert((a + b).len() > 0);
        lemma_nodes_view_concat(a, b.drop_last());
        assert(nodes_view(a) + nodes_view(b) =~= (nodes_view(a) + nodes_view(b.drop_last())).push(
            node_view(b.last()),
        ));
    }
}

/// A value produced by evaluation. Floats hold their IEEE 754 bit pattern;
/// a native function holds the name under which the runtime dispatches it.
#[derive(Debug)]
pub enum RuntimeValue {
    Null,
    Integer(i128),
    Float(u64),
    String(String),
    Boolean(bool),
    Array(Vec<RuntimeValue>),
    Iterable(Vec<Node>),
    Function(Vec<RuntimeValue>, Vec<Node>),
    NativeFunction(String),
}

/// Mathematical mirror of `RuntimeValue`.
pub enum ValueV {
    Null,
    Integer(i128),
    Float(u64),
    Str(Seq<char>),
    Boolean(bool),
    Array(Seq<ValueV>),
    Iterable(Seq<NodeV>),
    Function(Seq<ValueV>, Seq<NodeV>),
    NativeFunction(Seq<char>),
}

/// The view of an executable runtime value.
pub open spec fn value_view(v: RuntimeValue) -> ValueV
    decreases v,
{
    match v {
        RuntimeValue::Null => ValueV::Null,
        RuntimeValue::Integer(i) => ValueV::Integer(i),
        RuntimeValue::Float(b) => ValueV::Float(b),
        RuntimeValue::String(s) => ValueV::Str(s@),
        RuntimeValue::Boolean(b) => ValueV::Boolean(b),
        RuntimeValue::Array(els) => ValueV::Array(values_view(els@)),
        RuntimeValue::Iterable(ns) => ValueV::Iterable(nodes_view(ns@)),
        RuntimeValue::Function(ps, body) => ValueV::Function(values_view(ps@), nodes_view(body@)),
        RuntimeValue::NativeFunction(name) => ValueV::NativeFunction(name@),
    }
}

/// The elementwise view of a value sequence.
pub open spec fn values_view(s: Seq<RuntimeValue>) -> Seq<ValueV>
    decreases s,
{
    if s.len() == 0 {
        Seq::empty()
    } else {
        values_view(s.drop_last()).push(value_view(s.last()))
    }
}

pub broadcast proof fn lemma_values_view_len(s: Seq<RuntimeValue>)
    ensures
        (#[trigger] values_view(s)).len() == s.len(),
    decreases s.len(),
{
    if s.len() > 0 {
        lemma_values_view_len(s.drop_last());
    }
}

pub broadcast proof fn lemma_values_view_index(s: Seq<RuntimeValue>, i: int)
    requires
        0 <= i < s.len(),
    ensures
        (#[trigger] values_view(s)[i]) == value_view(s[i]),
    decreases s.len(),
{
    lemma_values_view_len(s);
    lemma_values_view_len(s.drop_last());
    if i < s.len() - 1 {
        lemma_values_view_index(s.drop_last(), i);
        assert(s.drop_last()[i] == s[i]);
    }
}

/// Cloning a node list preserves its view.
fn clone_nodes(v: &Vec<Node>) -> (r: Vec<Node>)
    ensures
        nodes_view(r@) == nodes_view(v@),
    decreases *v,
{
    let mut out: Vec<Node> = Vec::new();
    let n = v.len();
    let mut i: usize = 0;
    while i < n
        invariant
            i <= n,
            n == v@.len(),
            nodes_view(out@) == nodes_view(v@.take(i as int)),
        decreases n - i,
    {
        let c = clone_node(&v[i]);
        let ghost prev = out@;
        out.push(c);
        proof {
            assert(v@.take(i as int + 1).drop_last() =~= v@.take(i as int));
            assert(v@.take(i as int + 1).last() == v@[i as int]);
            assert(nodes_view(v@.take(i as int + 1)) == nodes_view(v@.take(i as int)).push(
                node_view(v@[i as int]),
            ));
            assert(out@.drop_last() =~= prev);
        }
        i = i + 1;
    }
    proof {
        assert(v@.take(n as int) =~= v@);
    }
    out
}

/// Cloning a node preserves its view.
fn clone_node(n: &Node) -> (r: Node)
    ensures
        node_view(r) == node_view(*n),
    decreases *n,
{
    match n {
        Node::StringLiteral(s) => Node::StringLiteral(s.clone()),
        Node::FloatLiteral(b) => Node::FloatLiteral(*b),
        Node::IntegerLiteral(i) => Node::IntegerLiteral(*i),
        Node::Identifier(s) => Node::Identifier(s.clone()),
        Node::BinaryExpression { left, operand, right } => Node::BinaryExpression {
            left: Box::new(clone_node(&*left)),
            operand: *operand,
            right: Box::new(clone_node(&*right)),
        },
        Node::AssignmentExpression { name, assignment_type, value } => Node::AssignmentExpression {
            name: Box::new(clone_node(&*name)),
            assignment_type: *assignment_type,
            value: Box::new(clone_node(&*value)),
        },
        Node::VariableDeclaration { name, value } => Node::VariableDeclaration {
            name: Box::new(clone_node(&*name)),
            value: Box::new(clone_node(&*value)),
        },
        Node::Scope { body } => Node::Scope { body: clone_nodes(body) },
        Node::Arguments(args) => Node::Arguments(clone_nodes(args)),
        Node::FunctionCall { name, arguments } => Node::FunctionCall {
            name: Box::new(clone_node(&*name)),
            arguments: Box::new(clone_node(&*arguments)),
        },
    }
}

impl Clone for Node {
    /// Cloning preserves the node's view.
    fn clone(&self) -> (r: Self)
        ensures
            node_view(r) == node_view(*self),
    {
        clone_node(self)
    }
}

/// Cloning a value list preserves its view.
fn clone_values(v: &Vec<RuntimeValue>) -> (r: Vec<RuntimeValue>)
    ensures
        values_view(r@) == values_view(v@),
    decreases *v,
{
    let mut out: Vec<RuntimeValue> = Vec::new();
    let n = v.len();
    let mut i: usize = 0;
    while i < n
        invariant
            i <= n,
            n == v@.len(),
            values_view(out@) == values_view(v@.take(i as int)),
        decreases n - i,
    {
        let c = clone_value(&v[i]);
        let ghost prev = out@;
        out.push(c);
        proof {
            assert(v@.take(i as int + 1).drop_last() =~= v@.take(i as int));
            assert(v@.take(i as int + 1).last() == v@[i as int]);
            assert(values_view(v@.take(i as int + 1)) == values_view(v@.take(i as int)).push(
                value_view(v@[i as int]),
            ));
            assert(out@.drop_last() =~= prev);
        }
        i = i + 1;
    }
    proof {
        assert(v@.take(n as int) =~= v@);
    }
    out
}

/// Cloning a value preserves its view.
fn clone_value(v: &RuntimeValue) -> (r: RuntimeValue)
    ensures
        value_view(r) == value_view(*v),
    decreases *v,
{
    match v {
        RuntimeValue::Null => RuntimeValue::Null,
        RuntimeValue::Integer(i) => RuntimeValue::Integer(*i),
        RuntimeValue::Float(b) => RuntimeValue::Float(*b),
        RuntimeValue::String(s) => RuntimeValue::String(s.clone()),
        RuntimeValue::Boolean(b) => RuntimeValue::Boolean(*b),
        RuntimeValue::Array(els) => RuntimeValue::Array(clone_values(els)),
        RuntimeValue::Iterable(ns) => RuntimeValue::Iterable(clone_nodes(ns)),
        RuntimeValue::Function(ps, body) => RuntimeValue::Function(
            clone_values(ps),
            clone_nodes(body),
        ),
        RuntimeValue::NativeFunction(name) => RuntimeValue::NativeFunction(name.clone()),
    }
}

impl Clone for RuntimeValue {
    /// Cloning preserves the value's view.
    fn clone(&self) -> (r: Self)
        ensures
            value_view(r) == value_view(*self),
    {
        clone_value(self)
    }
}

/// The textual form of a value: `NULL` for null, decimal digits for
/// numbers, the bare text for strings, `true`/`false` for booleans, the
/// comma-separated forms of the elements for arrays, a fixed word for
/// iterables and functions, and `Native Function: ` plus the name for a
/// native function.
pub open spec fn render_value_v(v: ValueV) -> Seq<char>
    decreases v,
{
    match v {
        ValueV::Null => "NULL"@,
        ValueV::Integer(i) => int_text(i as int),
        ValueV::Float(b) => float_text(b),
        ValueV::Str(s) => s,
        ValueV::Boolean(b) => if b {
            "true"@
        } else {
            "false"@
        },
        ValueV::Array(els) => render_list_v(els),
        ValueV::Iterable(_) => "Iterable"@,
        ValueV::Function(_, _) => "Function"@,
        ValueV::NativeFunction(name) => "Native Function: "@ + name,
    }
}

/// The comma-and-space separated textual forms of a value sequence.
pub open spec fn render_list_v(s: Seq<ValueV>) -> Seq<char>
    decreases s,
{
    if s.len() == 0 {
        Seq::empty()
    } else if s.len() == 1 {
        render_value_v(s[0])
    } else {
        render_list_v(s.drop_last()) + ", "@ + render_value_v(s.last())
    }
}

/// The textual forms of the elements of a value list, joined by `, `.
pub(crate) fn render_values(els: &Vec<RuntimeValue>) -> (r: String)
    ensures
        r@ == render_list_v(values_view(els@)),
    decreases *els,
{
    broadcast use lemma_values_view_len, lemma_values_view_index;

    let mut out = String::new();
    let n = els.len();
    let mut i: usize = 0;
    while i < n
        invariant
            i <= n,
            n == els@.len(),
            out@ == render_list_v(values_view(els@.take(i as int))),
        decreases n - i,
    {
        if i > 0 {
            proof {
                reveal_strlit(", ");
            }
            out.append(", ");
        }
        let t = (&els[i]).to_text();
        out.append(t.as_str());
        proof {
            let pre = values_view(els@.take(i as int));
            let full = values_view(els@.take(i as int + 1));
            assert(els@.take(i as int + 1).drop_last() =~= els@.take(i as int));
            assert(els@.take(i as int + 1).last() == els@[i as int]);
            assert(full == pre.push(value_view(els@[i as int])));
            assert(full.drop_last() =~= pre);
            assert(full.last() == value_view(els@[i as int]));
            if i == 0 {
                assert(render_list_v(full) == render_value_v(value_view(els@[i as int])));
                assert(out@ =~= render_list_v(full));
            } else {
                assert(render_list_v(full) == render_list_v(pre) + ", "@ + render_value_v(
                    value_view(els@[i as int]),
                ));
                assert(out@ =~= render_list_v(full));
            }
        }
        i = i + 1;
    }
    proof {
        assert(els@.take(n as int) =~= els@);
    }
    out
}

impl RuntimeValue {
    /// The textual form of this value, as `render_value_v` states it.
    pub fn to_text(&self) -> (r: String)
        ensures
            r@ == render_value_v(value_view(*self)),
        decreases *self,
    {
        match self {
            RuntimeValue::Null => {
                proof {
                    reveal_strlit("NULL");
                }
                String::from_str("NULL")
            },
            RuntimeValue::Integer(i) => crate::digits::i128_text(*i),
            RuntimeValue::Float(b) => crate::floats::float_to_text(*b),
            RuntimeValue::String(s) => s.clone(),
            RuntimeValue::Boolean(b) => {
                proof {
                    reveal_strlit("true");
                    reveal_strlit("false");
                }
                if *b {
                    String::from_str("true")
                } else {
                    String::from_str("false")
                }
            },
            RuntimeValue::Array(els) => render_values(els),
            RuntimeValue::Iterable(_) => {
                proof {
                    reveal_strlit("Iterable");
                }
                String::from_str("Iterable")
            },
            RuntimeValue::Function(_, _) => {
                proof {
                    reveal_strlit("Function");
                }
                String::from_str("Function")
            },
            RuntimeValue::NativeFunction(name) => {
                proof {
                    reveal_strlit("Native Function: ");
                }
                let mut out = String::from_str("Native Function: ");
                out.append(name.as_str());
                out
            },
        }
    }
}

} // verus!
