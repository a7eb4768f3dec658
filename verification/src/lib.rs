//! A small stack-based, postfix language: a parser from source text to a nested
//! program, and a stack machine that runs it.
//!
//! [`parser::fill`] turns a text into a program, a sequence of [`Stack`] entries.
//! [`runtime::Machine`] runs a program against a stack of [`ValueType`] values, one
//! step at a time; [`runtime::run`] takes as many steps as it is given.
//!
//! The library never prints and never computes with doubles. Whatever needs either
//! is handed to the caller as a [`runtime::Request`]; the caller answers and lets
//! the machine go on. A `Float` is held as the bit pattern of a double, which is
//! enough to tell whether it is zero and how two of them compare.
//!
//! Every function states what it returns and changes over a mathematical model of
//! its arguments: [`value::Value`] and [`value::Instruction`] for values and
//! programs, [`parser::parsed`] for the parser, [`runtime::machine::stepped`] for
//! the machine. What holds of the two as a whole is proved in [`laws`].

pub mod definitions;
pub mod error;
pub mod file;
pub mod ieee;
pub mod laws;
pub mod number;
pub mod operation;
pub mod parser;
pub mod power;
pub mod runtime;
pub mod scan;
pub mod text;
pub mod value;

pub use definitions::Definitions;
pub use error::{ParsingError, RuntimeError};
pub use operation::OperationType;
pub use value::{Stack, ValueType};
