//! What an operation asks for beyond its change to the stack.

use vstd::prelude::*;
use crate::operation::OperationType;
use crate::value::{instructions, values, Instruction, Stack, Value, ValueType};

verus! {

/// Work that the machine leaves to its host: output, and everything that needs
/// floating-point hardware.
#[derive(Debug, PartialEq)]
pub enum Request {
    /// Compute `left` (operation) `right` on the two doubles and push the result.
    /// Both operands have left the stack. The operation is one of `Add`, `Sub`,
    /// `Mul`, `Div`, `Mod` and `Pow`.
    Arithmetic { operation: OperationType, left: u64, right: u64 },
    /// Convert the decimal literal to a double and push it.
    Convert { digits: String },
    /// Write the value.
    Print { value: ValueType },
    /// Write the value and end the line.
    Println { value: ValueType },
    /// Write the value and the depth of the stack, on a line.
    PrintDebug { value: ValueType, depth: usize },
    /// Write the whole stack.
    PrintDebugStack { stack: Vec<ValueType> },
}

/// The mathematical content of a [`Request`].
pub enum Demand {
    Arithmetic { operation: OperationType, left: u64, right: u64 },
    Convert { digits: Seq<char> },
    Print { value: Value },
    Println { value: Value },
    PrintDebug { value: Value, depth: usize },
    PrintDebugStack { stack: Seq<Value> },
}

impl View for Request {
    type V = Demand;

    open spec fn view(&self) -> Demand {
        match self {
            Request::Arithmetic { operation, left, right } => Demand::Arithmetic {
                operation: *operation,
                left: *left,
                right: *right,
            },
            Request::Convert { digits } => Demand::Convert { digits: digits@ },
            Request::Print { value } => Demand::Print { value: value@ },
            Request::Println { value } => Demand::Println { value: value@ },
            Request::PrintDebug { value, depth } => Demand::PrintDebug {
                value: value@,
                depth: *depth,
            },
            Request::PrintDebugStack { stack } => Demand::PrintDebugStack { stack: values(stack@) },
        }
    }
}

/// What an operation leaves to be done once it has changed the stack.
#[derive(Debug, PartialEq)]
pub enum Effect {
    /// Nothing more.
    Nothing,
    /// Run `body` once, on the same stack.
    Enter { body: Vec<Stack> },
    /// Run `body` `times` times, on the same stack; not at all where `times` is
    /// not positive.
    Repeat { body: Vec<Stack>, times: i64 },
    /// Run `body` again and again for as long as the top of the stack is true
    /// before a run.
    Loop { body: Vec<Stack> },
    /// Hand the request to the host.
    Ask(Request),
}

/// The mathematical content of an [`Effect`].
pub enum Action {
    Nothing,
    Enter { body: Seq<Instruction> },
    Repeat { body: Seq<Instruction>, times: i64 },
    Loop { body: Seq<Instruction> },
    Ask(Demand),
}

impl View for Effect {
    type V = Action;

    open spec fn view(&self) -> Action {
        match self {
            Effect::Nothing => Action::Nothing,
            Effect::Enter { body } => Action::Enter { body: instructions(body@) },
            Effect::Repeat { body, times } => Action::Repeat {
                body: instructions(body@),
                times: *times,
            },
            Effect::Loop { body } => Action::Loop { body: instructions(body@) },
            Effect::Ask(request) => Action::Ask(request@),
        }
    }
}

} // verus!
