//! What can go wrong while a program is parsed, and while it runs.

use vstd::prelude::*;
use crate::operation::OperationType;
use crate::value::{values, Instruction, Stack, Value, ValueType};

verus! {

/// Why parsing stopped. The first failure ends the whole parse.
#[derive(Debug, PartialEq)]
pub enum ParsingError {
    /// A number or a string literal is malformed.
    ExtractionError { what: String, reason: String },
    /// `macro` or `const` cannot register what precedes it.
    RegistrationError { what: String, reason: String },
    /// A word names neither an operator, nor a definition, nor a keyword.
    KeywordError { reason: String },
    /// The entry that `macro` or `const` found in the slot of the body is of the
    /// wrong kind. `got` is that entry.
    MismatchedTypes { expected: String, got: Stack },
}

/// The mathematical content of a [`ParsingError`].
pub enum ParsingFault {
    ExtractionError { what: Seq<char>, reason: Seq<char> },
    RegistrationError { what: Seq<char>, reason: Seq<char> },
    KeywordError { reason: Seq<char> },
    MismatchedTypes { expected: Seq<char>, got: Instruction },
}

impl View for ParsingError {
    type V = ParsingFault;

    open spec fn view(&self) -> ParsingFault {
        match self {
            ParsingError::ExtractionError { what, reason } => ParsingFault::ExtractionError {
                what: what@,
                reason: reason@,
            },
            ParsingError::RegistrationError { what, reason } => ParsingFault::RegistrationError {
                what: what@,
                reason: reason@,
            },
            ParsingError::KeywordError { reason } => ParsingFault::KeywordError { reason: reason@ },
            ParsingError::MismatchedTypes { expected, got } => ParsingFault::MismatchedTypes {
                expected: expected@,
                got: got@,
            },
        }
    }
}

/// Why a run stopped. What the failing operation had already taken off the stack
/// stays off.
#[derive(Debug, PartialEq)]
#[allow(inconsistent_fields)]
pub enum RuntimeError {
    /// The operation cannot be executed: it exists only at parse time, or it is not
    /// one of the kind that was asked for.
    InvalidOperation { operation: OperationType },
    /// The stack holds `got` values where the operation needs `needed`.
    /// `value_stack` is a copy of the stack at that moment.
    InsufficientArguments { needed: usize, got: usize, value_stack: Vec<ValueType> },
    /// An operand is of the wrong kind. `got` is that operand.
    MismatchedTypes { expected: String, got: ValueType },
    /// Integer division or remainder has no result for these operands: the divisor
    /// is zero, or the quotient does not fit.
    UndefinedResult { operation: OperationType, left: i64, right: i64 },
}

/// The mathematical content of a [`RuntimeError`].
#[allow(inconsistent_fields)]
pub enum RuntimeFault {
    InvalidOperation { operation: OperationType },
    InsufficientArguments { needed: usize, got: usize, value_stack: Seq<Value> },
    MismatchedTypes { expected: Seq<char>, got: Value },
    UndefinedResult { operation: OperationType, left: i64, right: i64 },
}

impl View for RuntimeError {
    type V = RuntimeFault;

    open spec fn view(&self) -> RuntimeFault {
        match self {
            RuntimeError::InvalidOperation { operation } => RuntimeFault::InvalidOperation {
                operation: *operation,
            },
            RuntimeError::InsufficientArguments {
                needed,
                got,
                value_stack,
            } => RuntimeFault::InsufficientArguments {
                needed: *needed,
                got: *got,
                value_stack: values(value_stack@),
            },
            RuntimeError::MismatchedTypes { expected, got } => RuntimeFault::MismatchedTypes {
                expected: expected@,
                got: got@,
            },
            RuntimeError::UndefinedResult { operation, left, right } => RuntimeFault::UndefinedResult {
                operation: *operation,
                left: *left,
                right: *right,
            },
        }
    }
}

} // verus!
