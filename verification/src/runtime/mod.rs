//! Running a program: the operations on the stack, and the machine that applies
//! them one instruction at a time.

pub mod effect;
pub mod executors;
pub mod machine;

pub use effect::{Effect, Request};
pub use executors::execute_operation;
pub use machine::{run, Frame, Machine, Status};
