//! The operations of the language, each as a change to the stack.
//!
//! An operation takes its operands off the top of the stack and puts its result
//! there. What it cannot do itself (run a scope, print, compute with doubles) it
//! returns as an [`Effect`]. An operation that fails does not put back what it has
//! taken.

use vstd::prelude::*;
use crate::error::{RuntimeError, RuntimeFault};
use crate::ieee;
use crate::operation::OperationType;
use crate::power::{wrapped, wrapping_power};
use crate::runtime::effect::{Action, Demand, Effect, Request};
use crate::value::{copy_values, instructions, values, Instruction, Stack, Value, ValueType};

verus! {

/// The stack after an operation, and what the operation returns.
pub struct Applied {
    pub stack: Seq<Value>,
    pub result: Result<Action, RuntimeFault>,
}

/// What a call has come to: the stack as it is now, with what was returned.
pub open spec fn outcome_of(stack: Vec<ValueType>, res: Result<Effect, RuntimeError>) -> Applied {
    Applied {
        stack: values(stack@),
        result: match res {
            Ok(effect) => Ok(effect@),
            Err(error) => Err(error@),
        },
    }
}

/// The failure of an operation that needs `needed` values on a stack that holds
/// fewer.
pub open spec fn lacking(stack: Seq<Value>, needed: usize) -> RuntimeFault {
    RuntimeFault::InsufficientArguments { needed, got: stack.len() as usize, value_stack: stack }
}

/// The failure of an operation on an operand of the wrong kind.
pub open spec fn mismatched(expected: Seq<char>, got: Value) -> RuntimeFault {
    RuntimeFault::MismatchedTypes { expected, got }
}

/// An operation that succeeds with nothing left to do.
pub open spec fn done(stack: Seq<Value>) -> Applied {
    Applied { stack, result: Ok(Action::Nothing) }
}

/// An operation that fails.
pub open spec fn failed(stack: Seq<Value>, fault: RuntimeFault) -> Applied {
    Applied { stack, result: Err(fault) }
}

/// Whether `operation` is one of the six of arithmetic.
pub open spec fn is_arithmetic(operation: OperationType) -> bool {
    operation == OperationType::Add || operation == OperationType::Sub || operation
        == OperationType::Mul || operation == OperationType::Div || operation == OperationType::Mod
        || operation == OperationType::Pow
}

/// `left` (operation) `right` on 64-bit integers, for the five operations that an
/// operator of Rust writes. Sums, differences and products wrap around. A quotient
/// or a remainder is that of truncating division; there is none where `right` is
/// zero, nor where the quotient does not fit.
pub open spec fn calculated(operation: OperationType, left: i64, right: i64) -> Result<
    i64,
    RuntimeFault,
> {
    match operation {
        OperationType::Add => Ok(left.wrapping_add(right)),
        OperationType::Sub => Ok(left.wrapping_sub(right)),
        OperationType::Mul => Ok(left.wrapping_mul(right)),
        OperationType::Div => match left.checked_div(right) {
            Some(quotient) => Ok(quotient),
            None => Err(RuntimeFault::UndefinedResult { operation, left, right }),
        },
        OperationType::Mod => match left.checked_rem(right) {
            Some(remainder) => Ok(remainder),
            None => Err(RuntimeFault::UndefinedResult { operation, left, right }),
        },
        _ => Err(RuntimeFault::InvalidOperation { operation }),
    }
}

/// `base` to the power of the low 32 bits of `exponent`, read as an unsigned
/// number; the power wraps around.
pub open spec fn raised(base: i64, exponent: i64) -> i64 {
    wrapped(vstd::arithmetic::power::pow(base as int, (exponent as u32) as nat))
}

/// `first` (operation) `second` on 64-bit integers, for the five comparisons.
pub open spec fn compared(operation: OperationType, first: i64, second: i64) -> Result<
    bool,
    RuntimeFault,
> {
    match operation {
        OperationType::Lt => Ok(first < second),
        OperationType::Gt => Ok(first > second),
        OperationType::Eq => Ok(first == second),
        OperationType::Leq => Ok(first <= second),
        OperationType::Geq => Ok(first >= second),
        _ => Err(RuntimeFault::InvalidOperation { operation }),
    }
}

/// `first` (operation) `second` on doubles, for the five comparisons. Every
/// comparison with a NaN is false.
pub open spec fn compared_doubles(operation: OperationType, first: u64, second: u64) -> Result<
    bool,
    RuntimeFault,
> {
    match operation {
        OperationType::Lt => Ok(ieee::less(first, second)),
        OperationType::Gt => Ok(ieee::less(second, first)),
        OperationType::Eq => Ok(ieee::equal(first, second)),
        OperationType::Leq => Ok(ieee::less_or_equal(first, second)),
        OperationType::Geq => Ok(ieee::less_or_equal(second, first)),
        _ => Err(RuntimeFault::InvalidOperation { operation }),
    }
}

/// Arithmetic: the two topmost values leave the stack, the one below as the left
/// operand, the top as the right one. Two integers are computed with and the
/// result joins the stack. Two doubles are handed to the host. Anything else is a
/// mismatch.
pub open spec fn common_math(operation: OperationType, stack: Seq<Value>) -> Applied {
    if stack.len() < 2 {
        failed(stack, lacking(stack, 2))
    } else {
        let rest = stack.take(stack.len() - 2);
        let left = stack[stack.len() - 2];
        let right = stack[stack.len() - 1];
        match left {
            Value::Int(num1) => match right {
                Value::Int(num2) => if operation == OperationType::Pow {
                    done(rest.push(Value::Int(raised(num1, num2))))
                } else {
                    match calculated(operation, num1, num2) {
                        Ok(result) => done(rest.push(Value::Int(result))),
                        Err(fault) => failed(rest, fault),
                    }
                },
                _ => failed(rest, mismatched("Int"@, right)),
            },
            Value::Float(num1) => match right {
                Value::Float(num2) => if is_arithmetic(operation) {
                    Applied {
                        stack: rest,
                        result: Ok(
                            Action::Ask(Demand::Arithmetic { operation, left: num1, right: num2 }),
                        ),
                    }
                } else {
                    failed(rest, RuntimeFault::InvalidOperation { operation })
                },
                _ => failed(rest, mismatched("Float"@, right)),
            },
            _ => failed(rest, mismatched("a numeric type"@, left)),
        }
    }
}

/// Comparison: the two topmost values leave the stack, the top as the first
/// operand, the one below as the second. Two integers or two doubles are compared
/// and the truth joins the stack. Anything else is a mismatch.
pub open spec fn comparison(operation: OperationType, stack: Seq<Value>) -> Applied {
    if stack.len() < 2 {
        failed(stack, lacking(stack, 2))
    } else {
        let rest = stack.take(stack.len() - 2);
        let first = stack[stack.len() - 1];
        let second = stack[stack.len() - 2];
        match first {
            Value::Int(num1) => match second {
                Value::Int(num2) => match compared(operation, num1, num2) {
                    Ok(truth) => done(rest.push(Value::Bool(truth))),
                    Err(fault) => failed(rest, fault),
                },
                _ => failed(rest, mismatched("Int"@, second)),
            },
            Value::Float(num1) => match second {
                Value::Float(num2) => match compared_doubles(operation, num1, num2) {
                    Ok(truth) => done(rest.push(Value::Bool(truth))),
                    Err(fault) => failed(rest, fault),
                },
                _ => failed(rest, mismatched("Float"@, second)),
            },
            _ => failed(rest, mismatched("a numeric type"@, first)),
        }
    }
}

/// `or` and `and`: the two topmost values leave the stack and the truth of their
/// combination joins it.
pub open spec fn combined(disjunction: bool, stack: Seq<Value>) -> Applied {
    if stack.len() < 2 {
        failed(stack, lacking(stack, 2))
    } else {
        let rest = stack.take(stack.len() - 2);
        let condition1 = stack[stack.len() - 1].truthy();
        let condition2 = stack[stack.len() - 2].truthy();
        done(
            rest.push(
                Value::Bool(
                    if disjunction {
                        condition1 || condition2
                    } else {
                        condition1 && condition2
                    },
                ),
            ),
        )
    }
}

/// `!`: the top value is replaced by its negation, a value of the same kind.
pub open spec fn negation(stack: Seq<Value>) -> Applied {
    if stack.len() < 1 {
        failed(stack, lacking(stack, 1))
    } else {
        done(stack.drop_last().push(stack.last().negated()))
    }
}

/// The four printing operations: the stack stays, and the host is asked to write
/// its top, or all of it.
pub open spec fn printing(operation: OperationType, stack: Seq<Value>) -> Applied {
    if stack.len() < 1 {
        failed(stack, lacking(stack, 1))
    } else {
        Applied {
            stack,
            result: Ok(
                Action::Ask(
                    match operation {
                        OperationType::Print => Demand::Print { value: stack.last() },
                        OperationType::Println => Demand::Println { value: stack.last() },
                        OperationType::PrintDebug => Demand::PrintDebug {
                            value: stack.last(),
                            depth: stack.len() as usize,
                        },
                        _ => Demand::PrintDebugStack { stack },
                    },
                ),
            ),
        }
    }
}

/// `if`: the condition, on top, and the scope below it leave the stack. What lies
/// below the condition must be a scope, whatever the condition. A true condition
/// has the scope run; a false one does nothing.
pub open spec fn conditional(stack: Seq<Value>) -> Applied {
    if stack.len() < 2 {
        failed(stack, lacking(stack, 2))
    } else {
        let rest = stack.take(stack.len() - 2);
        let condition = stack[stack.len() - 1];
        let scope = stack[stack.len() - 2];
        match scope {
            Value::Scope(body) => if condition.truthy() {
                Applied { stack: rest, result: Ok(Action::Enter { body }) }
            } else {
                done(rest)
            },
            _ => failed(rest, mismatched("Scope"@, scope)),
        }
    }
}

/// `for`: the count, on top, and the scope below it leave the stack. The count
/// must be an integer and what lies below it a scope, which is run that many
/// times.
pub open spec fn counted(stack: Seq<Value>) -> Applied {
    if stack.len() < 2 {
        failed(stack, lacking(stack, 2))
    } else {
        let rest = stack.take(stack.len() - 2);
        let condition = stack[stack.len() - 1];
        let scope = stack[stack.len() - 2];
        match condition {
            Value::Int(range) => match scope {
                Value::Scope(body) => Applied {
                    stack: rest,
                    result: Ok(Action::Repeat { body, times: range }),
                },
                _ => failed(rest, mismatched("Scope"@, scope)),
            },
            _ => failed(rest, mismatched("Int"@, condition)),
        }
    }
}

/// `while`: what lies below the top must be a scope. It leaves the stack, and the
/// top stays as the first condition: the scope is run for as long as the top of the
/// stack is true. Where it is no scope both values have left the stack.
pub open spec fn looped(stack: Seq<Value>) -> Applied {
    if stack.len() < 2 {
        failed(stack, lacking(stack, 2))
    } else {
        let rest = stack.take(stack.len() - 2);
        let scope = stack[stack.len() - 2];
        match scope {
            Value::Scope(body) => Applied {
                stack: rest.push(stack[stack.len() - 1]),
                result: Ok(Action::Loop { body }),
            },
            _ => failed(rest, mismatched("Scope"@, scope)),
        }
    }
}

/// `switch`: the two topmost values change places.
pub open spec fn switched(stack: Seq<Value>) -> Applied {
    if stack.len() < 2 {
        failed(stack, lacking(stack, 2))
    } else {
        done(
            stack.take(stack.len() - 2).push(stack[stack.len() - 1]).push(stack[stack.len() - 2]),
        )
    }
}

/// `reverse`: the whole stack is turned over.
pub open spec fn reversed(stack: Seq<Value>) -> Applied {
    done(stack.reverse())
}

/// `pop`: the top value leaves the stack; an empty stack stays empty.
pub open spec fn popped(stack: Seq<Value>) -> Applied {
    if stack.len() == 0 {
        done(stack)
    } else {
        done(stack.drop_last())
    }
}

/// `copy`: the top value joins the stack a second time.
pub open spec fn copied(stack: Seq<Value>) -> Applied {
    if stack.len() < 1 {
        failed(stack, lacking(stack, 1))
    } else {
        done(stack.push(stack.last()))
    }
}

/// What `operation` does to `stack`.
pub open spec fn applied(operation: OperationType, stack: Seq<Value>) -> Applied {
    match operation {
        OperationType::Add | OperationType::Sub | OperationType::Mul | OperationType::Div
        | OperationType::Mod | OperationType::Pow => common_math(operation, stack),
        OperationType::Lt | OperationType::Gt | OperationType::Eq | OperationType::Leq
        | OperationType::Geq => comparison(operation, stack),
        OperationType::Or => combined(true, stack),
        OperationType::And => combined(false, stack),
        OperationType::Not => negation(stack),
        OperationType::If => conditional(stack),
        OperationType::For => counted(stack),
        OperationType::While => looped(stack),
        OperationType::Print | OperationType::Println | OperationType::PrintDebug
        | OperationType::PrintDebugStack => printing(operation, stack),
        OperationType::Switch => switched(stack),
        OperationType::Reverse => reversed(stack),
        OperationType::Pop => popped(stack),
        OperationType::Copy => copied(stack),
        OperationType::Macro | OperationType::Const => failed(
            stack,
            RuntimeFault::InvalidOperation { operation },
        ),
    }
}

/// Takes the top value off `stack`.
fn take(stack: &mut Vec<ValueType>) -> (top: ValueType)
    requires
        old(stack)@.len() > 0,
    ensures
        final(stack)@.len() == old(stack)@.len() - 1,
        values(final(stack)@) == values(old(stack)@).drop_last(),
        top@ == values(old(stack)@).last(),
{
    stack.pop().unwrap()
}

/// Puts `value` on top of `stack`.
fn put(stack: &mut Vec<ValueType>, value: ValueType)
    ensures
        values(final(stack)@) == values(old(stack)@).push(value@),
{
    stack.push(value);
}

/// Fails unless `args` holds `needed` values at least; the failure carries a copy
/// of `args`.
pub fn check_argument_count(args: &Vec<ValueType>, needed: usize) -> (res: Result<(), RuntimeError>)
    ensures
        match res {
            Ok(_) => args@.len() >= needed,
            Err(error) => args@.len() < needed && error@ == lacking(values(args@), needed),
        },
{
    if args.len() < needed {
        Err(
            RuntimeError::InsufficientArguments {
                needed,
                got: args.len(),
                value_stack: copy_values(args),
            },
        )
    } else {
        Ok(())
    }
}

/// The failure of an operation that expected `expected` and got `got`.
pub fn mismatched_args(expected: &str, got: ValueType) -> (res: Result<Effect, RuntimeError>)
    ensures
        res is Err,
        res->Err_0@ == mismatched(expected@, got@),
{
    Err(RuntimeError::MismatchedTypes { expected: expected.to_string(), got })
}

/// Computes `num1` (operation) `num2` for `Add`, `Sub`, `Mul`, `Div` and `Mod`.
pub fn calculate_operation(operation: OperationType, num1: i64, num2: i64) -> (res: Result<
    i64,
    RuntimeError,
>)
    ensures
        match res {
            Ok(result) => calculated(operation, num1, num2) == Ok::<i64, RuntimeFault>(result),
            Err(error) => calculated(operation, num1, num2) == Err::<i64, RuntimeFault>(error@),
        },
{
    match operation {
        OperationType::Add => Ok(num1.wrapping_add(num2)),
        OperationType::Sub => Ok(num1.wrapping_sub(num2)),
        OperationType::Mul => Ok(num1.wrapping_mul(num2)),
        OperationType::Div => match num1.checked_div(num2) {
            Some(quotient) => Ok(quotient),
            None => Err(RuntimeError::UndefinedResult { operation, left: num1, right: num2 }),
        },
        OperationType::Mod => match num1.checked_rem(num2) {
            Some(remainder) => Ok(remainder),
            None => Err(RuntimeError::UndefinedResult { operation, left: num1, right: num2 }),
        },
        _ => Err(RuntimeError::InvalidOperation { operation }),
    }
}

/// Decides `num1` (operation) `num2` for the five comparisons.
pub fn compare_operation(operation: OperationType, num1: i64, num2: i64) -> (res: Result<
    bool,
    RuntimeError,
>)
    ensures
        match res {
            Ok(truth) => compared(operation, num1, num2) == Ok::<bool, RuntimeFault>(truth),
            Err(error) => compared(operation, num1, num2) == Err::<bool, RuntimeFault>(error@),
        },
{
    match operation {
        OperationType::Lt => Ok(num1 < num2),
        OperationType::Gt => Ok(num1 > num2),
        OperationType::Eq => Ok(num1 == num2),
        OperationType::Leq => Ok(num1 <= num2),
        OperationType::Geq => Ok(num1 >= num2),
        _ => Err(RuntimeError::InvalidOperation { operation }),
    }
}

/// Decides `num1` (operation) `num2` on doubles, for the five comparisons.
pub fn compare_doubles(operation: OperationType, num1: u64, num2: u64) -> (res: Result<
    bool,
    RuntimeError,
>)
    ensures
        match res {
            Ok(truth) => compared_doubles(operation, num1, num2) == Ok::<bool, RuntimeFault>(truth),
            Err(error) => compared_doubles(operation, num1, num2) == Err::<bool, RuntimeFault>(
                error@,
            ),
        },
{
    match operation {
        OperationType::Lt => Ok(ieee::is_less(num1, num2)),
        OperationType::Gt => Ok(ieee::is_less(num2, num1)),
        OperationType::Eq => Ok(ieee::is_equal(num1, num2)),
        OperationType::Leq => Ok(ieee::is_less_or_equal(num1, num2)),
        OperationType::Geq => Ok(ieee::is_less_or_equal(num2, num1)),
        _ => Err(RuntimeError::InvalidOperation { operation }),
    }
}

/// Tells whether `operation` is one of the six of arithmetic.
pub fn arithmetic(operation: OperationType) -> (r: bool)
    ensures
        r == is_arithmetic(operation),
{
    match operation {
        OperationType::Add | OperationType::Sub | OperationType::Mul | OperationType::Div
        | OperationType::Mod | OperationType::Pow => true,
        _ => false,
    }
}

/// Arithmetic on the two topmost values of `stack`: the lower one is the left
/// operand. Integers are computed here; doubles are handed to the host, which
/// puts the result on the stack.
pub fn execute_common_math(stack: &mut Vec<ValueType>, operation: OperationType) -> (res: Result<
    Effect,
    RuntimeError,
>)
    ensures
        outcome_of(*final(stack), res) == common_math(operation, values(old(stack)@)),
{
    match check_argument_count(stack, 2) {
        Ok(_) => {},
        Err(error) => {
            return Err(error);
        },
    }
    let ghost start = values(stack@);
    let arg2 = take(stack);
    let arg1 = take(stack);
    proof {
        assert(values(stack@) =~= start.take(start.len() - 2));
    }
    match arg1 {
        ValueType::Int(num1) => match arg2 {
            ValueType::Int(num2) => {
                if operation == OperationType::Pow {
                    put(stack, ValueType::Int(wrapping_power(num1, #[verifier::truncate] (num2 as u32))));
                    Ok(Effect::Nothing)
                } else {
                    match calculate_operation(operation, num1, num2) {
                        Ok(result) => {
                            put(stack, ValueType::Int(result));
                            Ok(Effect::Nothing)
                        },
                        Err(error) => Err(error),
                    }
                }
            },
            other => mismatched_args("Int", other),
        },
        ValueType::Float(num1) => match arg2 {
            ValueType::Float(num2) => {
                if arithmetic(operation) {
                    Ok(Effect::Ask(Request::Arithmetic { operation, left: num1, right: num2 }))
                } else {
                    Err(RuntimeError::InvalidOperation { operation })
                }
            },
            other => mismatched_args("Float", other),
        },
        other => mismatched_args("a numeric type", other),
    }
}

/// Comparison of the two topmost values of `stack`: the top one is the first
/// operand.
pub fn execute_comparison(stack: &mut Vec<ValueType>, operation: OperationType) -> (res: Result<
    Effect,
    RuntimeError,
>)
    ensures
        outcome_of(*final(stack), res) == comparison(operation, values(old(stack)@)),
{
    match check_argument_count(stack, 2) {
        Ok(_) => {},
        Err(error) => {
            return Err(error);
        },
    }
    let ghost start = values(stack@);
    let arg1 = take(stack);
    let arg2 = take(stack);
    proof {
        assert(values(stack@) =~= start.take(start.len() - 2));
    }
    match arg1 {
        ValueType::Int(num1) => match arg2 {
            ValueType::Int(num2) => match compare_operation(operation, num1, num2) {
                Ok(truth) => {
                    put(stack, ValueType::Bool(truth));
                    Ok(Effect::Nothing)
                },
                Err(error) => Err(error),
            },
            other => mismatched_args("Int", other),
        },
        ValueType::Float(num1) => match arg2 {
            ValueType::Float(num2) => match compare_doubles(operation, num1, num2) {
                Ok(truth) => {
                    put(stack, ValueType::Bool(truth));
                    Ok(Effect::Nothing)
                },
                Err(error) => Err(error),
            },
            other => mismatched_args("Float", other),
        },
        other => mismatched_args("a numeric type", other),
    }
}

/// `+`: the sum of the two topmost numbers.
pub fn add(stack: &mut Vec<ValueType>) -> (res: Result<Effect, RuntimeError>)
    ensures
        outcome_of(*final(stack), res) == common_math(OperationType::Add, values(old(stack)@)),
{
    execute_common_math(stack, OperationType::Add)
}

/// `*`: the product of the two topmost numbers.
pub fn mul(stack: &mut Vec<ValueType>) -> (res: Result<Effect, RuntimeError>)
    ensures
        outcome_of(*final(stack), res) == common_math(OperationType::Mul, values(old(stack)@)),
{
    execute_common_math(stack, OperationType::Mul)
}

/// `-`: the number below the top less the top.
pub fn sub(stack: &mut Vec<ValueType>) -> (res: Result<Effect, RuntimeError>)
    ensures
        outcome_of(*final(stack), res) == common_math(OperationType::Sub, values(old(stack)@)),
{
    execute_common_math(stack, OperationType::Sub)
}

/// `/`: the number below the top divided by the top.
pub fn div(stack: &mut Vec<ValueType>) -> (res: Result<Effect, RuntimeError>)
    ensures
        outcome_of(*final(stack), res) == common_math(OperationType::Div, values(old(stack)@)),
{
    execute_common_math(stack, OperationType::Div)
}

/// `^`: the number below the top raised to the power of the top.
pub fn pow(stack: &mut Vec<ValueType>) -> (res: Result<Effect, RuntimeError>)
    ensures
        outcome_of(*final(stack), res) == common_math(OperationType::Pow, values(old(stack)@)),
{
    execute_common_math(stack, OperationType::Pow)
}

/// `%`: the remainder of the number below the top divided by the top.
pub fn modulo(stack: &mut Vec<ValueType>) -> (res: Result<Effect, RuntimeError>)
    ensures
        outcome_of(*final(stack), res) == common_math(OperationType::Mod, values(old(stack)@)),
{
    execute_common_math(stack, OperationType::Mod)
}

/// `<`: whether the top is less than the number below it.
pub fn lt(stack: &mut Vec<ValueType>) -> (res: Result<Effect, RuntimeError>)
    ensures
        outcome_of(*final(stack), res) == comparison(OperationType::Lt, values(old(stack)@)),
{
    execute_comparison(stack, OperationType::Lt)
}

/// `>`: whether the top is greater than the number below it.
pub fn gt(stack: &mut Vec<ValueType>) -> (res: Result<Effect, RuntimeError>)
    ensures
        outcome_of(*final(stack), res) == comparison(OperationType::Gt, values(old(stack)@)),
{
    execute_comparison(stack, OperationType::Gt)
}

/// `==`: whether the top equals the number below it.
pub fn eq(stack: &mut Vec<ValueType>) -> (res: Result<Effect, RuntimeError>)
    ensures
        outcome_of(*final(stack), res) == comparison(OperationType::Eq, values(old(stack)@)),
{
    execute_comparison(stack, OperationType::Eq)
}

/// `<=`: whether the top is at most the number below it.
pub fn leq(stack: &mut Vec<ValueType>) -> (res: Result<Effect, RuntimeError>)
    ensures
        outcome_of(*final(stack), res) == comparison(OperationType::Leq, values(old(stack)@)),
{
    execute_comparison(stack, OperationType::Leq)
}

/// `>=`: whether the top is at least the number below it.
pub fn geq(stack: &mut Vec<ValueType>) -> (res: Result<Effect, RuntimeError>)
    ensures
        outcome_of(*final(stack), res) == comparison(OperationType::Geq, values(old(stack)@)),
{
    execute_comparison(stack, OperationType::Geq)
}

/// `print`: asks the host to write the top of the stack, which stays.
pub fn print(stack: &Vec<ValueType>) -> (res: Result<Effect, RuntimeError>)
    ensures
        outcome_of(*stack, res) == printing(OperationType::Print, values(stack@)),
{
    match check_argument_count(stack, 1) {
        Ok(_) => {},
        Err(error) => {
            return Err(error);
        },
    }
    let value = stack[stack.len() - 1].clone();
    Ok(Effect::Ask(Request::Print { value }))
}

/// `println`: asks the host to write the top of the stack, which stays, and to end
/// the line.
pub fn println(stack: &Vec<ValueType>) -> (res: Result<Effect, RuntimeError>)
    ensures
        outcome_of(*stack, res) == printing(OperationType::Println, values(stack@)),
{
    match check_argument_count(stack, 1) {
        Ok(_) => {},
        Err(error) => {
            return Err(error);
        },
    }
    let value = stack[stack.len() - 1].clone();
    Ok(Effect::Ask(Request::Println { value }))
}

/// `print_debug`: asks the host to write the top of the stack, which stays, and
/// how many values the stack holds.
pub fn print_debug(stack: &Vec<ValueType>) -> (res: Result<Effect, RuntimeError>)
    ensures
        outcome_of(*stack, res) == printing(OperationType::PrintDebug, values(stack@)),
{
    match check_argument_count(stack, 1) {
        Ok(_) => {},
        Err(error) => {
            return Err(error);
        },
    }
    let value = stack[stack.len() - 1].clone();
    Ok(Effect::Ask(Request::PrintDebug { value, depth: stack.len() }))
}

/// `print_debug_stack`: asks the host to write the whole stack, which stays.
pub fn print_debug_stack(stack: &Vec<ValueType>) -> (res: Result<Effect, RuntimeError>)
    ensures
        outcome_of(*stack, res) == printing(OperationType::PrintDebugStack, values(stack@)),
{
    match check_argument_count(stack, 1) {
        Ok(_) => {},
        Err(error) => {
            return Err(error);
        },
    }
    Ok(Effect::Ask(Request::PrintDebugStack { stack: copy_values(stack) }))
}

/// `if`: takes the condition and the scope below it; a true condition has the
/// scope run. What is no scope fails it, whatever the condition.
pub fn if_statement(value_stack: &mut Vec<ValueType>) -> (res: Result<Effect, RuntimeError>)
    ensures
        outcome_of(*final(value_stack), res) == conditional(values(old(value_stack)@)),
{
    match check_argument_count(value_stack, 2) {
        Ok(_) => {},
        Err(error) => {
            return Err(error);
        },
    }
    let ghost start = values(value_stack@);
    let condition = take(value_stack);
    let scope = take(value_stack);
    proof {
        assert(values(value_stack@) =~= start.take(start.len() - 2));
    }
    match scope {
        ValueType::Scope(body) => {
            if condition.truthy() {
                Ok(Effect::Enter { body })
            } else {
                Ok(Effect::Nothing)
            }
        },
        other => mismatched_args("Scope", other),
    }
}

/// `for`: takes the count and the scope below it; the scope is run as many times
/// as the count says. A count that is no integer fails it, and so does what is no
/// scope.
pub fn for_loop(value_stack: &mut Vec<ValueType>) -> (res: Result<Effect, RuntimeError>)
    ensures
        outcome_of(*final(value_stack), res) == counted(values(old(value_stack)@)),
{
    match check_argument_count(value_stack, 2) {
        Ok(_) => {},
        Err(error) => {
            return Err(error);
        },
    }
    let ghost start = values(value_stack@);
    let condition = take(value_stack);
    let scope = take(value_stack);
    proof {
        assert(values(value_stack@) =~= start.take(start.len() - 2));
    }
    match condition {
        ValueType::Int(range) => match scope {
            ValueType::Scope(body) => Ok(Effect::Repeat { body, times: range }),
            other => mismatched_args("Scope", other),
        },
        other => mismatched_args("Int", other),
    }
}

/// `while`: takes the scope from below the top; the scope is run for as long as
/// the top of the stack is true. What is no scope fails it.
pub fn while_loop(value_stack: &mut Vec<ValueType>) -> (res: Result<Effect, RuntimeError>)
    ensures
        outcome_of(*final(value_stack), res) == looped(values(old(value_stack)@)),
{
    match check_argument_count(value_stack, 2) {
        Ok(_) => {},
        Err(error) => {
            return Err(error);
        },
    }
    let ghost start = values(value_stack@);
    let condition = take(value_stack);
    let scope = take(value_stack);
    proof {
        assert(values(value_stack@) =~= start.take(start.len() - 2));
    }
    match scope {
        ValueType::Scope(body) => {
            put(value_stack, condition);
            Ok(Effect::Loop { body })
        },
        other => mismatched_args("Scope", other),
    }
}

/// `||`: whether either of the two topmost values is true.
pub fn or(stack: &mut Vec<ValueType>) -> (res: Result<Effect, RuntimeError>)
    ensures
        outcome_of(*final(stack), res) == combined(true, values(old(stack)@)),
{
    match check_argument_count(stack, 2) {
        Ok(_) => {},
        Err(error) => {
            return Err(error);
        },
    }
    let ghost start = values(stack@);
    let condition1 = take(stack);
    let condition2 = take(stack);
    proof {
        assert(values(stack@) =~= start.take(start.len() - 2));
    }
    if condition1.truthy() || condition2.truthy() {
        put(stack, ValueType::Bool(true));
    } else {
        put(stack, ValueType::Bool(false));
    }
    Ok(Effect::Nothing)
}

/// `&&`: whether both of the two topmost values are true.
pub fn and(stack: &mut Vec<ValueType>) -> (res: Result<Effect, RuntimeError>)
    ensures
        outcome_of(*final(stack), res) == combined(false, values(old(stack)@)),
{
    match check_argument_count(stack, 2) {
        Ok(_) => {},
        Err(error) => {
            return Err(error);
        },
    }
    let ghost start = values(stack@);
    let condition1 = take(stack);
    let condition2 = take(stack);
    proof {
        assert(values(stack@) =~= start.take(start.len() - 2));
    }
    if condition1.truthy() && condition2.truthy() {
        put(stack, ValueType::Bool(true));
    } else {
        put(stack, ValueType::Bool(false));
    }
    Ok(Effect::Nothing)
}

/// `!`: replaces the top value by a value of the same kind that stands for the
/// opposite truth.
pub fn not(stack: &mut Vec<ValueType>) -> (res: Result<Effect, RuntimeError>)
    ensures
        outcome_of(*final(stack), res) == negation(values(old(stack)@)),
{
    match check_argument_count(stack, 1) {
        Ok(_) => {},
        Err(error) => {
            return Err(error);
        },
    }
    let condition = take(stack);
    let truth = condition.truthy();
    let negated = if truth {
        match condition {
            ValueType::Int(_) => ValueType::Int(0),
            ValueType::Float(_) => ValueType::Float(ieee::ZERO),
            ValueType::Text(_) => ValueType::Text(String::new()),
            ValueType::Scope(_) => {
                let body: Vec<Stack> = Vec::new();
                proof {
                    assert(instructions(body@) =~= Seq::<Instruction>::empty());
                }
                ValueType::Scope(body)
            },
            ValueType::Bool(_) => ValueType::Bool(false),
        }
    } else {
        match condition {
            ValueType::Int(_) => ValueType::Int(1),
            ValueType::Float(_) => ValueType::Float(ieee::ONE),
            ValueType::Text(_) => ValueType::Text("true".to_string()),
            ValueType::Scope(_) => {
                let mut body: Vec<Stack> = Vec::new();
                body.push(Stack::Value(ValueType::Bool(true)));
                proof {
                    assert(instructions(body@) =~= seq![Instruction::Value(Value::Bool(true))]);
                }
                ValueType::Scope(body)
            },
            ValueType::Bool(_) => ValueType::Bool(true),
        }
    };
    put(stack, negated);
    Ok(Effect::Nothing)
}

/// `switch`: the two topmost values change places.
pub fn switch(stack: &mut Vec<ValueType>) -> (res: Result<Effect, RuntimeError>)
    ensures
        outcome_of(*final(stack), res) == switched(values(old(stack)@)),
{
    match check_argument_count(stack, 2) {
        Ok(_) => {},
        Err(error) => {
            return Err(error);
        },
    }
    let ghost start = values(stack@);
    let top = take(stack);
    let below = take(stack);
    proof {
        assert(values(stack@) =~= start.take(start.len() - 2));
    }
    put(stack, top);
    put(stack, below);
    Ok(Effect::Nothing)
}

/// `reverse`: the whole stack is turned over.
pub fn reverse(stack: &mut Vec<ValueType>) -> (res: Result<Effect, RuntimeError>)
    ensures
        outcome_of(*final(stack), res) == reversed(values(old(stack)@)),
{
    let ghost start = values(stack@);
    let mut turned: Vec<ValueType> = Vec::new();
    while stack.len() > 0
        invariant
            values(turned@) + values(stack@).reverse() == start.reverse(),
        decreases stack@.len(),
    {
        let top = take(stack);
        put(&mut turned, top);
    }
    *stack = turned;
    Ok(Effect::Nothing)
}

/// `pop`: the top value leaves the stack, if there is one.
pub fn pop(stack: &mut Vec<ValueType>) -> (res: Result<Effect, RuntimeError>)
    ensures
        outcome_of(*final(stack), res) == popped(values(old(stack)@)),
{
    if stack.len() > 0 {
        let _ = take(stack);
    }
    Ok(Effect::Nothing)
}

/// `copy`: the top value joins the stack a second time.
pub fn copy(stack: &mut Vec<ValueType>) -> (res: Result<Effect, RuntimeError>)
    ensures
        outcome_of(*final(stack), res) == copied(values(old(stack)@)),
{
    match check_argument_count(stack, 1) {
        Ok(_) => {},
        Err(error) => {
            return Err(error);
        },
    }
    let last = stack[stack.len() - 1].clone();
    put(stack, last);
    Ok(Effect::Nothing)
}

/// Applies `operation` to `stack`.
///
/// `macro` and `const` are no operations of a running program: they fail.
pub fn execute_operation(stack: &mut Vec<ValueType>, operation: OperationType) -> (res: Result<
    Effect,
    RuntimeError,
>)
    ensures
        outcome_of(*final(stack), res) == applied(operation, values(old(stack)@)),
{
    match operation {
        OperationType::Add => self::add(stack),
        OperationType::Sub => self::sub(stack),
        OperationType::Mul => self::mul(stack),
        OperationType::Div => div(stack),
        OperationType::Mod => modulo(stack),
        OperationType::Pow => self::pow(stack),
        OperationType::Lt => lt(stack),
        OperationType::Gt => gt(stack),
        OperationType::Eq => eq(stack),
        OperationType::Leq => leq(stack),
        OperationType::Geq => geq(stack),
        OperationType::Or => or(stack),
        OperationType::And => and(stack),
        OperationType::Not => not(stack),
        OperationType::If => if_statement(stack),
        OperationType::For => for_loop(stack),
        OperationType::While => while_loop(stack),
        OperationType::Print => print(stack),
        OperationType::Println => println(stack),
        OperationType::PrintDebug => print_debug(stack),
        OperationType::PrintDebugStack => print_debug_stack(stack),
        OperationType::Switch => switch(stack),
        OperationType::Reverse => reverse(stack),
        OperationType::Pop => pop(stack),
        OperationType::Copy => copy(stack),
        _ => Err(RuntimeError::InvalidOperation { operation }),
    }
}

} // verus!
