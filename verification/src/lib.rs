//! A verified interpreter for a small scripting language.
//!
//! The pipeline has three stages: `lexer::tokenize` turns source text into a
//! token sequence, `parser::generate_ast` turns tokens into an abstract
//! syntax tree, and `interpreter::evaluate` walks the tree against a mutable
//! name-to-value environment, producing a runtime value or an error.
//!
//! Every stage carries a contract relating it to a mathematical model of the
//! language: the lexer to a character-by-character state machine, the parser
//! to a recursive-descent definition of the grammar, and the evaluator to a
//! recursive evaluation function over view-level trees. Floating-point
//! values are carried as IEEE 754 double-precision bit patterns; their
//! arithmetic, parsing and formatting go through trusted wrappers around the
//! `rustc_apfloat` software implementation.

pub mod digits;
pub mod environment;
pub mod error;
pub mod floats;
pub mod interpreter;
pub mod laws;
pub mod lexer;
pub mod native_functions;
pub mod parser;
pub mod types;
