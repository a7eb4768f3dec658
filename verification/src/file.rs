//! The shape in which a parsed program is stored.

use vstd::prelude::*;
use crate::value::{instructions, Instruction, Stack};

verus! {

/// A program as a binary file holds it: the parsed entries, in order.
#[derive(Debug, PartialEq)]
pub struct Binary {
    pub stack: Vec<Stack>,
}

impl View for Binary {
    type V = Seq<Instruction>;

    open spec fn view(&self) -> Seq<Instruction> {
        instructions(self.stack@)
    }
}

impl Binary {
    /// Wraps a parsed program for storing.
    pub fn new(stack: Vec<Stack>) -> (binary: Binary)
        ensures
            binary@ == instructions(stack@),
    {
        Binary { stack }
    }

    /// Hands the stored program out.
    pub fn into_stack(self) -> (stack: Vec<Stack>)
        ensures
            instructions(stack@) == self@,
    {
        self.stack
    }
}

} // verus!
