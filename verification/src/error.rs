//! The error type shared by the lexer, the parser and the evaluator.

use crate::digits::dec_digits;
use crate::digits::u128_text;
use vstd::prelude::*;
use vstd::string::StringExecFns;

verus! {

/// The kind of a reported failure: `SyntaxError` for lexical or grammatical
/// malformation, `NameError` for an undeclared or redeclared identifier or an
/// unknown keyword, `TypeError` for operands incompatible with an operator or
/// call, and `Error` for remaining shape mismatches.
#[derive(Clone, Copy, PartialEq, Eq, Structural, Debug)]
pub enum ErrorType {
    Error,
    SyntaxError,
    NameError,
    TypeError,
}

/// An error with its kind, message, and source position. Lines and columns
/// are 1-based; both are zero when the failing site has no source position
/// available (the evaluator works on trees that carry no positions).
#[derive(Debug)]
pub struct Error {
    pub error_type: ErrorType,
    pub message: String,
    pub line: u128,
    pub column: u128,
}

/// Mathematical mirror of `Error`: the message as a character sequence and
/// the position as unbounded naturals.
pub struct ErrV {
    pub error_type: ErrorType,
    pub message: Seq<char>,
    pub line: nat,
    pub column: nat,
}

/// Shorthand for building an `ErrV` in specifications.
pub open spec fn err_v(error_type: ErrorType, message: Seq<char>, line: nat, column: nat) -> ErrV {
    ErrV { error_type, message, line, column }
}

/// The view of an executable error.
pub open spec fn error_view(e: Error) -> ErrV {
    ErrV {
        error_type: e.error_type,
        message: e.message@,
        line: e.line as nat,
        column: e.column as nat,
    }
}

/// The elementwise view of a list of errors.
pub open spec fn errors_view(es: Seq<Error>) -> Seq<ErrV> {
    es.map(|i: int, e: Error| error_view(e))
}

/// The name of an error kind.
pub open spec fn error_type_text(t: ErrorType) -> Seq<char> {
    match t {
        ErrorType::Error => "Error"@,
        ErrorType::SyntaxError => "SyntaxError"@,
        ErrorType::NameError => "NameError"@,
        ErrorType::TypeError => "TypeError"@,
    }
}

/// The textual form of an error: its kind, message and position.
pub open spec fn error_text(e: ErrV) -> Seq<char> {
    error_type_text(e.error_type) + ": "@ + e.message + " in line "@ + dec_digits(e.line)
        + " column "@ + dec_digits(e.column)
}

impl Error {
    pub fn new(error_type: ErrorType, message: String, line: u128, column: u128) -> (r: Error)
        ensures
            error_view(r) == err_v(error_type, message@, line as nat, column as nat),
    {
        Error { error_type, message, line, column }
    }
}

impl Default for Error {
    /// The neutral error value: the generic kind, an empty message, and no
    /// position.
    fn default() -> (r: Error)
        ensures
            error_view(r) == err_v(ErrorType::Error, Seq::empty(), 0, 0),
    {
        Error { error_type: ErrorType::Error, message: String::new(), line: 0, column: 0 }
    }
}

impl Error {
    /// The textual form of this error, as `error_text` states it.
    pub fn to_text(&self) -> (r: String)
        ensures
            r@ == error_text(error_view(*self)),
    {
        let kind: &'static str = match self.error_type {
            ErrorType::Error => "Error",
            ErrorType::SyntaxError => "SyntaxError",
            ErrorType::NameError => "NameError",
            ErrorType::TypeError => "TypeError",
        };
        let mut out = String::from_str(kind);
        out.append(": ");
        out.append(self.message.as_str());
        out.append(" in line ");
        let line_text = u128_text(self.line);
        out.append(line_text.as_str());
        out.append(" column ");
        let col_text = u128_text(self.column);
        out.append(col_text.as_str());
        out
    }
}

} // verus!
