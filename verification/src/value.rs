//! Values and programs: what the parser builds and the machine runs.

use vstd::prelude::*;
use crate::ieee;
use crate::operation::OperationType;

verus! {

/// A value of the language.
///
/// A `Float` holds the bit pattern of an IEEE-754 double. A `Scope` owns a nested
/// program that has not run yet.
#[derive(Debug, PartialEq)]
pub enum ValueType {
    Int(i64),
    Float(u64),
    Text(String),
    Scope(Vec<Stack>),
    Bool(bool),
}

/// One element of a program.
///
/// A `Decimal` is a floating-point literal as it was written, separators removed:
/// the digits are kept until the program runs, when the machine asks its host for
/// the double they denote.
#[derive(Debug, PartialEq)]
pub enum Stack {
    Value(ValueType),
    Operation(OperationType),
    Decimal(String),
}

/// The mathematical content of a [`ValueType`].
pub enum Value {
    Int(i64),
    Float(u64),
    Text(Seq<char>),
    Scope(Seq<Instruction>),
    Bool(bool),
}

/// The mathematical content of a [`Stack`] entry.
pub enum Instruction {
    Value(Value),
    Operation(OperationType),
    Decimal(Seq<char>),
}

impl Value {
    /// The truth that a value stands for as a condition: a number is true unless it
    /// is zero, a text or a scope unless it is empty, a boolean is itself.
    pub open spec fn truthy(self) -> bool {
        match self {
            Value::Int(number) => number != 0,
            Value::Float(bits) => ieee::nonzero(bits),
            Value::Text(text) => text.len() != 0,
            Value::Scope(body) => body.len() != 0,
            Value::Bool(condition) => condition,
        }
    }

    /// The value of the same kind that stands for the opposite truth: the zero or
    /// empty value of that kind for a true one, its one or `true` value for a false
    /// one.
    pub open spec fn negated(self) -> Value {
        if self.truthy() {
            match self {
                Value::Int(_) => Value::Int(0),
                Value::Float(_) => Value::Float(ieee::ZERO),
                Value::Text(_) => Value::Text(Seq::empty()),
                Value::Scope(_) => Value::Scope(Seq::empty()),
                Value::Bool(_) => Value::Bool(false),
            }
        } else {
            match self {
                Value::Int(_) => Value::Int(1),
                Value::Float(_) => Value::Float(ieee::ONE),
                Value::Text(_) => Value::Text("true"@),
                Value::Scope(_) => Value::Scope(seq![Instruction::Value(Value::Bool(true))]),
                Value::Bool(_) => Value::Bool(true),
            }
        }
    }
}

/// The contents of a sequence of program entries.
pub open spec fn instructions(code: Seq<Stack>) -> Seq<Instruction>
    decreases code,
{
    Seq::new(
        code.len(),
        |i: int|
            if 0 <= i < code.len() {
                code[i].view()
            } else {
                arbitrary()
            },
    )
}

/// The contents of a sequence of values.
pub open spec fn values(stack: Seq<ValueType>) -> Seq<Value> {
    Seq::new(stack.len(), |i: int| stack[i]@)
}

impl View for ValueType {
    type V = Value;

    open spec fn view(&self) -> Value
        decreases self,
    {
        match self {
            ValueType::Int(number) => Value::Int(*number),
            ValueType::Float(bits) => Value::Float(*bits),
            ValueType::Text(text) => Value::Text(text@),
            ValueType::Scope(body) => Value::Scope(instructions(body@)),
            ValueType::Bool(condition) => Value::Bool(*condition),
        }
    }
}

impl View for Stack {
    type V = Instruction;

    open spec fn view(&self) -> Instruction
        decreases self,
    {
        match self {
            Stack::Value(value) => Instruction::Value(value.view()),
            Stack::Operation(operation) => Instruction::Operation(*operation),
            Stack::Decimal(digits) => Instruction::Decimal(digits@),
        }
    }
}

impl ValueType {
    /// Whether the value counts as true when used as a condition.
    pub fn truthy(&self) -> (r: bool)
        ensures
            r == self@.truthy(),
    {
        match self {
            ValueType::Int(number) => *number != 0,
            ValueType::Float(bits) => ieee::is_nonzero(*bits),
            ValueType::Text(text) => text.as_str().unicode_len() != 0,
            ValueType::Scope(body) => {
                assert(instructions(body@).len() == body@.len());
                body.len() != 0
            },
            ValueType::Bool(condition) => *condition,
        }
    }
}

/// A deep copy of a program: every nested scope is copied, nothing is shared.
#[verifier::loop_isolation(false)]
pub fn copy_program(code: &Vec<Stack>) -> (copy: Vec<Stack>)
    ensures
        instructions(copy@) == instructions(code@),
    decreases code,
{
    let mut copy: Vec<Stack> = Vec::new();
    let mut k: usize = 0;
    while k < code.len()
        invariant
            k <= code.len(),
            copy.len() == k,
            forall|j: int| 0 <= j < k ==> copy[j]@ == code[j]@,
        decreases code.len() - k,
    {
        copy.push(code[k].clone());
        k += 1;
    }
    copy
}

/// A deep copy of a stack of values.
pub fn copy_values(stack: &Vec<ValueType>) -> (copy: Vec<ValueType>)
    ensures
        values(copy@) == values(stack@),
{
    let mut copy: Vec<ValueType> = Vec::new();
    let mut k: usize = 0;
    while k < stack.len()
        invariant
            k <= stack.len(),
            copy.len() == k,
            forall|j: int| 0 <= j < k ==> copy[j]@ == stack[j]@,
        decreases stack.len() - k,
    {
        copy.push(stack[k].clone());
        k += 1;
    }
    copy
}

impl Clone for ValueType {
    /// A deep copy: a scope's program is copied entry by entry.
    fn clone(&self) -> (copy: Self)
        ensures
            copy@ == self@,
        decreases self,
    {
        match self {
            ValueType::Int(number) => ValueType::Int(*number),
            ValueType::Float(bits) => ValueType::Float(*bits),
            ValueType::Text(text) => ValueType::Text(text.clone()),
            ValueType::Scope(body) => ValueType::Scope(copy_program(body)),
            ValueType::Bool(condition) => ValueType::Bool(*condition),
        }
    }
}

impl Clone for Stack {
    /// A deep copy of the entry.
    fn clone(&self) -> (copy: Self)
        ensures
            copy@ == self@,
        decreases self,
    {
        match self {
            Stack::Value(value) => Stack::Value(value.clone()),
            Stack::Operation(operation) => Stack::Operation(*operation),
            Stack::Decimal(digits) => Stack::Decimal(digits.clone()),
        }
    }
}

/// Adding an entry to a program adds its content to the program's content.
pub proof fn lemma_instructions_push(code: Seq<Stack>, entry: Stack)
    ensures
        instructions(code.push(entry)) == instructions(code).push(entry@),
{
}

/// Adding a value to a stack adds its content to the stack's content.
pub proof fn lemma_values_push(stack: Seq<ValueType>, value: ValueType)
    ensures
        values(stack.push(value)) == values(stack).push(value@),
{
}

} // verus!
