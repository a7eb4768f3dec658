use stack_lang::operation::OperationType;
use stack_lang::runtime::executors::{execute_common_math, execute_comparison};
use stack_lang::runtime::{execute_operation, run, Effect, Frame, Machine, Request, Status};
use stack_lang::{RuntimeError, Stack, ValueType};

/// Does what the machine leaves to its host. Returns what was written, if anything.
fn answer(machine: &mut Machine, request: Request) -> Option<String> {
    match request {
        Request::Arithmetic {
            operation,
            left,
            right,
        } => {
            let (left, right) = (f64::from_bits(left), f64::from_bits(right));
            let result = match operation {
                OperationType::Add => left + right,
                OperationType::Sub => left - right,
                OperationType::Mul => left * right,
                OperationType::Div => left / right,
                OperationType::Mod => left % right,
                OperationType::Pow => left.powf(right),
                other => unreachable!("{:?} is no arithmetic", other),
            };
            machine.supply(result.to_bits());
            None
        }
        Request::Convert { digits } => {
            machine.supply(digits.parse::<f64>().unwrap().to_bits());
            None
        }
        Request::Print { value } => Some(format!("{:?}", value)),
        Request::Println { value } => Some(format!("{:?}\n", value)),
        Request::PrintDebug { value, depth } => Some(format!("{:?} at {}", value, depth)),
        Request::PrintDebugStack { stack } => Some(format!("{:?}", stack)),
    }
}

/// Runs the machine to the end of its program, answering every request.
fn drive(machine: &mut Machine, mut status: Status) -> Result<Vec<String>, RuntimeError> {
    let mut written = Vec::new();
    loop {
        match status {
            Status::Finished => return Ok(written),
            Status::Running => {}
            Status::Waiting(request) => written.extend(answer(machine, request)),
        }
        status = run(machine, 7)?;
    }
}

/// Applies one operation and runs whatever it starts to the end.
fn execute(stack: &mut Vec<ValueType>, operation: OperationType) -> Result<Vec<String>, RuntimeError> {
    let mut machine = Machine::new(Vec::new(), std::mem::take(stack));
    let outcome = match execute_operation(&mut machine.stack, operation) {
        Ok(effect) => {
            let status = machine.perform(effect);
            drive(&mut machine, status)
        }
        Err(error) => Err(error),
    };
    *stack = machine.stack;
    outcome
}

/// Runs a whole program on an empty stack.
fn run_program(program: Vec<Stack>) -> Result<Vec<ValueType>, RuntimeError> {
    let mut machine = Machine::new(program, Vec::new());
    drive(&mut machine, Status::Running)?;
    Ok(machine.stack)
}

fn float(number: f64) -> ValueType {
    ValueType::Float(number.to_bits())
}

#[test]
fn test_execute_add() {
    let mut stack = vec![ValueType::Int(2), ValueType::Int(2)];
    execute(&mut stack, OperationType::Add).unwrap();

    assert_eq!(ValueType::Int(4), stack[0]);
    assert_eq!(stack.len(), 1);
}

#[test]
fn test_execute_sub() {
    let mut stack = vec![float(2.), float(2.5)];
    execute(&mut stack, OperationType::Sub).unwrap();

    assert_eq!(float(-0.5), stack[0]);
}

#[test]
fn test_execute_mul() {
    let mut stack = vec![float(1.5), float(2.0)];
    execute(&mut stack, OperationType::Mul).unwrap();

    assert_eq!(float(3.0), stack[0]);
}

#[test]
fn test_execute_div() {
    let mut stack = vec![ValueType::Int(5), ValueType::Int(2)];
    execute(&mut stack, OperationType::Div).unwrap();

    assert_eq!(ValueType::Int(2), stack[0]);
}

#[test]
fn test_execute_div_by_zero() {
    let mut stack = vec![ValueType::Int(0), ValueType::Int(5)];
    execute(&mut stack, OperationType::Div).unwrap();

    assert_eq!(ValueType::Int(0), stack[0]);
}

#[test]
#[should_panic]
fn test_execute_mul_mixed_types() {
    let mut stack = vec![float(5.0), ValueType::Int(0)];
    execute(&mut stack, OperationType::Div).unwrap();

    assert_eq!(ValueType::Int(2), stack[0]);
}

#[test]
fn test_execute_pow() {
    let mut stack = vec![ValueType::Int(2), ValueType::Int(3)];
    execute(&mut stack, OperationType::Pow).unwrap();

    assert_eq!(ValueType::Int(8), stack[0]);
}

#[test]
fn test_execute_mod() {
    let mut stack = vec![ValueType::Int(3), ValueType::Int(2)];
    execute(&mut stack, OperationType::Mod).unwrap();

    assert_eq!(ValueType::Int(1), stack[0]);
}

#[test]
fn test_execute_print() {
    let mut stack = vec![ValueType::Text("Hell'o, World!".to_string())];
    let written = execute(&mut stack, OperationType::Print).unwrap();

    assert_eq!(written.len(), 1);
    assert_eq!(stack, vec![ValueType::Text("Hell'o, World!".to_string())]);
}

#[test]
fn test_execute_print_debug() {
    let mut stack = vec![ValueType::Text("Hell'o, World!".to_string())];
    let effect = execute_operation(&mut stack, OperationType::PrintDebug).unwrap();

    assert_eq!(
        effect,
        Effect::Ask(Request::PrintDebug {
            value: ValueType::Text("Hell'o, World!".to_string()),
            depth: 1,
        })
    );
}

#[test]
fn test_execute_if_statement_true() {
    let mut stack = vec![
        ValueType::Int(1),
        ValueType::Int(2),
        ValueType::Scope(vec![Stack::Operation(OperationType::Mul)]),
        ValueType::Bool(true),
    ];

    execute(&mut stack, OperationType::If).unwrap();

    assert_eq!(stack, vec![ValueType::Int(2)]);
}

#[test]
fn test_execute_if_statement_false() {
    let mut stack = vec![
        ValueType::Int(1),
        ValueType::Int(2),
        ValueType::Scope(vec![Stack::Operation(OperationType::Mul)]),
        ValueType::Bool(false),
    ];

    execute(&mut stack, OperationType::If).unwrap();

    assert_eq!(stack, vec![ValueType::Int(1), ValueType::Int(2)]);
}

#[test]
fn test_execute_lt() {
    let mut stack = vec![ValueType::Int(2), ValueType::Int(1)];

    execute(&mut stack, OperationType::Lt).unwrap();

    // 1 is less than 2
    assert_eq!(stack, vec![ValueType::Bool(true)]);
}

#[test]
fn test_execute_gt() {
    let mut stack = vec![ValueType::Int(1), ValueType::Int(2)];

    execute(&mut stack, OperationType::Gt).unwrap();

    // 2 is grater than 1
    assert_eq!(stack, vec![ValueType::Bool(true)]);
}

#[test]
fn test_execute_eq() {
    let mut stack = vec![ValueType::Int(5), ValueType::Int(5)];

    execute(&mut stack, OperationType::Eq).unwrap();

    // 5 is equal to 5
    assert_eq!(stack, vec![ValueType::Bool(true)]);
}

#[test]
fn test_execute_leq() {
    let mut stack = vec![ValueType::Int(5), ValueType::Int(5)];

    execute(&mut stack, OperationType::Leq).unwrap();

    // 5 is equal or less than 5
    assert_eq!(stack, vec![ValueType::Bool(true)]);
}

#[test]
fn test_execute_geq() {
    let mut stack = vec![ValueType::Int(5), ValueType::Int(5)];

    execute(&mut stack, OperationType::Geq).unwrap();

    // 5 is equal or grater than 5
    assert_eq!(stack, vec![ValueType::Bool(true)]);
}

#[test]
fn test_execute_or() {
    let mut stack = vec![ValueType::Bool(false), ValueType::Bool(true)];

    execute(&mut stack, OperationType::Or).unwrap();

    // one of: [false, true] is true
    assert_eq!(stack, vec![ValueType::Bool(true)]);
}

#[test]
fn test_execute_and() {
    let mut stack = vec![ValueType::Bool(true), ValueType::Bool(true)];

    execute(&mut stack, OperationType::Or).unwrap();

    // all of: [true, true] are true
    assert_eq!(stack, vec![ValueType::Bool(true)]);
}

#[test]
fn test_execute_not() {
    let mut stack = vec![ValueType::Bool(true)];

    execute(&mut stack, OperationType::Not).unwrap();

    assert_eq!(stack, vec![ValueType::Bool(false)]);
}

#[test]
fn test_execute_for() {
    let mut stack = vec![
        ValueType::Int(2),
        ValueType::Scope(vec![
            Stack::Value(ValueType::Int(1)),
            Stack::Operation(OperationType::Add),
            Stack::Operation(OperationType::Print),
        ]),
        ValueType::Int(3),
    ];

    let written = execute(&mut stack, OperationType::For).unwrap();

    // 2 + 3 = 5
    assert_eq!(vec![ValueType::Int(5)], stack);
    // the body ran exactly three times
    assert_eq!(written, vec!["Int(3)", "Int(4)", "Int(5)"]);
}

#[test]
fn test_execute_while() {
    let mut stack = vec![
        ValueType::Scope(vec![
            Stack::Value(ValueType::Int(-1)),
            Stack::Operation(OperationType::Add),
            Stack::Operation(OperationType::Print),
        ]),
        ValueType::Int(3),
    ];

    let written = execute(&mut stack, OperationType::While).unwrap();

    // top value needs to be falsy to stop execution
    assert_eq!(vec![ValueType::Int(0)], stack);
    // the body never ran again once the top was zero
    assert_eq!(written, vec!["Int(2)", "Int(1)", "Int(0)"]);
}

#[test]
fn test_execute_switch() {
    let mut stack = vec![ValueType::Int(1), ValueType::Int(2), ValueType::Int(3)];

    execute(&mut stack, OperationType::Switch).unwrap();

    assert_eq!(
        vec![ValueType::Int(1), ValueType::Int(3), ValueType::Int(2)],
        stack
    );
}

#[test]
fn test_execute_reverse() {
    let mut stack = vec![ValueType::Int(1), ValueType::Int(2), ValueType::Int(3)];

    execute(&mut stack, OperationType::Reverse).unwrap();

    assert_eq!(
        vec![ValueType::Int(3), ValueType::Int(2), ValueType::Int(1)],
        stack
    );
}

#[test]
fn test_execute_pop() {
    let mut stack = vec![ValueType::Int(1), ValueType::Int(2), ValueType::Int(3)];

    execute(&mut stack, OperationType::Pop).unwrap();

    assert_eq!(vec![ValueType::Int(1), ValueType::Int(2)], stack);
}

#[test]
fn test_execute_copy() {
    let mut stack = vec![ValueType::Int(1)];

    execute(&mut stack, OperationType::Copy).unwrap();

    assert_eq!(vec![ValueType::Int(1), ValueType::Int(1)], stack);
}

#[test]
fn pop_on_an_empty_stack_does_nothing_and_copy_fails() {
    let mut stack: Vec<ValueType> = Vec::new();
    execute(&mut stack, OperationType::Pop).unwrap();
    assert!(stack.is_empty());
    assert_eq!(
        execute(&mut stack, OperationType::Copy).unwrap_err(),
        RuntimeError::InsufficientArguments {
            needed: 1,
            got: 0,
            value_stack: vec![],
        }
    );
}

#[test]
fn copy_of_a_scope_is_a_copy() {
    let scope = || ValueType::Scope(vec![Stack::Value(ValueType::Scope(vec![Stack::Decimal("1.5".to_string())]))]);
    let mut stack = vec![scope()];
    execute(&mut stack, OperationType::Copy).unwrap();
    assert_eq!(stack, vec![scope(), scope()]);
    assert_eq!(scope().clone(), scope());
}

#[test]
fn integer_arithmetic_wraps() {
    let two = |operation, left, right| {
        let mut stack = vec![ValueType::Int(left), ValueType::Int(right)];
        execute(&mut stack, operation).unwrap();
        stack
    };
    assert_eq!(two(OperationType::Add, i64::MAX, 1), vec![ValueType::Int(i64::MIN)]);
    assert_eq!(two(OperationType::Sub, i64::MIN, 1), vec![ValueType::Int(i64::MAX)]);
    assert_eq!(two(OperationType::Mul, i64::MAX, 2), vec![ValueType::Int(-2)]);
    assert_eq!(two(OperationType::Sub, 7, 10), vec![ValueType::Int(-3)]);
    assert_eq!(two(OperationType::Div, -7, 2), vec![ValueType::Int(-3)]);
    assert_eq!(two(OperationType::Mod, -7, 2), vec![ValueType::Int(-1)]);
    assert_eq!(two(OperationType::Mod, 7, -2), vec![ValueType::Int(1)]);
}

#[test]
fn integer_power() {
    let power = |base, exponent| {
        let mut stack = vec![ValueType::Int(base), ValueType::Int(exponent)];
        execute(&mut stack, OperationType::Pow).unwrap();
        stack
    };
    assert_eq!(power(2, 3), vec![ValueType::Int(8)]);
    assert_eq!(power(-3, 3), vec![ValueType::Int(-27)]);
    assert_eq!(power(7, 0), vec![ValueType::Int(1)]);
    assert_eq!(power(2, 63), vec![ValueType::Int(i64::MIN)]);
    assert_eq!(power(2, 64), vec![ValueType::Int(0)]);
    assert_eq!(power(3, 41), vec![ValueType::Int(3i64.wrapping_pow(41))]);
    // the exponent is the low 32 bits
    assert_eq!(power(3, (1 << 32) + 2), vec![ValueType::Int(9)]);
    assert_eq!(power(3, -1), vec![ValueType::Int(3i64.wrapping_pow(u32::MAX))]);
}

#[test]
fn division_without_a_result_fails() {
    for (operation, left, right) in [
        (OperationType::Div, 5, 0),
        (OperationType::Mod, 5, 0),
        (OperationType::Div, i64::MIN, -1),
        (OperationType::Mod, i64::MIN, -1),
    ] {
        let mut stack = vec![ValueType::Int(9), ValueType::Int(left), ValueType::Int(right)];
        assert_eq!(
            execute(&mut stack, operation).unwrap_err(),
            RuntimeError::UndefinedResult {
                operation,
                left,
                right,
            }
        );
        // what was taken stays off
        assert_eq!(stack, vec![ValueType::Int(9)]);
    }
}

#[test]
fn float_arithmetic_is_asked_of_the_host() {
    let mut stack = vec![float(2.0), float(0.5)];
    assert_eq!(
        execute_operation(&mut stack, OperationType::Pow).unwrap(),
        Effect::Ask(Request::Arithmetic {
            operation: OperationType::Pow,
            left: 2f64.to_bits(),
            right: 0.5f64.to_bits(),
        })
    );
    assert!(stack.is_empty());

    let mut stack = vec![float(1.0), float(0.0)];
    execute(&mut stack, OperationType::Div).unwrap();
    assert_eq!(stack, vec![float(f64::INFINITY)]);

    let mut stack = vec![float(7.5), float(2.0)];
    execute(&mut stack, OperationType::Mod).unwrap();
    assert_eq!(stack, vec![float(1.5)]);
}

#[test]
fn mismatched_operands() {
    let mut stack = vec![ValueType::Int(1), float(2.0)];
    assert_eq!(
        execute(&mut stack, OperationType::Add).unwrap_err(),
        RuntimeError::MismatchedTypes {
            expected: "Int".to_string(),
            got: float(2.0),
        }
    );
    let mut stack = vec![float(2.0), ValueType::Int(1)];
    assert_eq!(
        execute(&mut stack, OperationType::Add).unwrap_err(),
        RuntimeError::MismatchedTypes {
            expected: "Float".to_string(),
            got: ValueType::Int(1),
        }
    );
    let mut stack = vec![ValueType::Bool(true), ValueType::Int(1)];
    assert_eq!(
        execute(&mut stack, OperationType::Add).unwrap_err(),
        RuntimeError::MismatchedTypes {
            expected: "a numeric type".to_string(),
            got: ValueType::Bool(true),
        }
    );
    // a comparison looks at the top first
    let mut stack = vec![ValueType::Bool(true), ValueType::Int(1)];
    assert_eq!(
        execute(&mut stack, OperationType::Lt).unwrap_err(),
        RuntimeError::MismatchedTypes {
            expected: "Int".to_string(),
            got: ValueType::Bool(true),
        }
    );
    let mut stack = vec![ValueType::Int(1), ValueType::Text("x".to_string())];
    assert_eq!(
        execute(&mut stack, OperationType::Lt).unwrap_err(),
        RuntimeError::MismatchedTypes {
            expected: "a numeric type".to_string(),
            got: ValueType::Text("x".to_string()),
        }
    );
}

#[test]
fn insufficient_arguments_carry_the_stack() {
    let mut stack = vec![ValueType::Int(1)];
    assert_eq!(
        execute(&mut stack, OperationType::Add).unwrap_err(),
        RuntimeError::InsufficientArguments {
            needed: 2,
            got: 1,
            value_stack: vec![ValueType::Int(1)],
        }
    );
    assert_eq!(stack, vec![ValueType::Int(1)]);
}

#[test]
fn operations_of_the_wrong_kind_are_invalid() {
    let mut stack = vec![ValueType::Int(1), ValueType::Int(2)];
    assert_eq!(
        execute_common_math(&mut stack, OperationType::Lt).unwrap_err(),
        RuntimeError::InvalidOperation {
            operation: OperationType::Lt
        }
    );
    let mut stack = vec![ValueType::Int(1), ValueType::Int(2)];
    assert_eq!(
        execute_comparison(&mut stack, OperationType::Add).unwrap_err(),
        RuntimeError::InvalidOperation {
            operation: OperationType::Add
        }
    );
    let mut stack = vec![float(1.0), float(2.0)];
    assert_eq!(
        execute_common_math(&mut stack, OperationType::Print).unwrap_err(),
        RuntimeError::InvalidOperation {
            operation: OperationType::Print
        }
    );
    for operation in [OperationType::Macro, OperationType::Const] {
        let mut stack = vec![ValueType::Int(1), ValueType::Int(2)];
        assert_eq!(
            execute(&mut stack, operation).unwrap_err(),
            RuntimeError::InvalidOperation { operation }
        );
        assert_eq!(stack.len(), 2);
    }
}

#[test]
fn truthiness() {
    assert!(ValueType::Int(-1).truthy());
    assert!(!ValueType::Int(0).truthy());
    assert!(float(0.1).truthy());
    assert!(float(f64::NAN).truthy());
    assert!(!float(0.0).truthy());
    assert!(!float(-0.0).truthy());
    assert!(ValueType::Text(" ".to_string()).truthy());
    assert!(!ValueType::Text(String::new()).truthy());
    assert!(ValueType::Scope(vec![Stack::Operation(OperationType::Add)]).truthy());
    assert!(!ValueType::Scope(vec![]).truthy());
    assert!(ValueType::Bool(true).truthy());
    assert!(!ValueType::Bool(false).truthy());
}

#[test]
fn negation_keeps_the_kind() {
    let negate = |value| {
        let mut stack = vec![value];
        execute(&mut stack, OperationType::Not).unwrap();
        stack.pop().unwrap()
    };
    assert_eq!(negate(ValueType::Int(7)), ValueType::Int(0));
    assert_eq!(negate(ValueType::Int(0)), ValueType::Int(1));
    assert_eq!(negate(float(2.5)), float(0.0));
    assert_eq!(negate(float(-0.0)), float(1.0));
    assert_eq!(negate(ValueType::Text("x".to_string())), ValueType::Text(String::new()));
    assert_eq!(negate(ValueType::Text(String::new())), ValueType::Text("true".to_string()));
    assert_eq!(
        negate(ValueType::Scope(vec![Stack::Operation(OperationType::Add)])),
        ValueType::Scope(vec![])
    );
    assert_eq!(
        negate(ValueType::Scope(vec![])),
        ValueType::Scope(vec![Stack::Value(ValueType::Bool(true))])
    );
    assert_eq!(negate(ValueType::Bool(false)), ValueType::Bool(true));
}

#[test]
fn and_or_take_any_kind() {
    let mut stack = vec![ValueType::Int(0), ValueType::Text("x".to_string())];
    execute(&mut stack, OperationType::And).unwrap();
    assert_eq!(stack, vec![ValueType::Bool(false)]);
    let mut stack = vec![ValueType::Int(0), ValueType::Text("x".to_string())];
    execute(&mut stack, OperationType::Or).unwrap();
    assert_eq!(stack, vec![ValueType::Bool(true)]);
    let mut stack = vec![ValueType::Bool(true), ValueType::Bool(true)];
    execute(&mut stack, OperationType::And).unwrap();
    assert_eq!(stack, vec![ValueType::Bool(true)]);
}

#[test]
fn if_needs_a_scope_whatever_the_condition() {
    for condition in [true, false] {
        let mut stack = vec![ValueType::Int(9), ValueType::Int(1), ValueType::Bool(condition)];
        assert_eq!(
            execute(&mut stack, OperationType::If).unwrap_err(),
            RuntimeError::MismatchedTypes {
                expected: "Scope".to_string(),
                got: ValueType::Int(1),
            }
        );
        // both operands have left the stack
        assert_eq!(stack, vec![ValueType::Int(9)]);
    }
    let mut stack = vec![
        ValueType::Scope(vec![Stack::Value(ValueType::Int(1))]),
        ValueType::Bool(false),
    ];
    execute(&mut stack, OperationType::If).unwrap();
    assert!(stack.is_empty());
}

#[test]
fn for_needs_an_integer_count_and_a_scope() {
    let mut stack = vec![ValueType::Scope(vec![]), ValueType::Bool(true)];
    assert_eq!(
        execute(&mut stack, OperationType::For).unwrap_err(),
        RuntimeError::MismatchedTypes {
            expected: "Int".to_string(),
            got: ValueType::Bool(true),
        }
    );
    let body = || ValueType::Scope(vec![Stack::Value(ValueType::Int(1))]);
    for count in [0, -3] {
        let mut stack = vec![body(), ValueType::Int(count)];
        execute(&mut stack, OperationType::For).unwrap();
        assert!(stack.is_empty());
    }
    for count in [3, 0] {
        let mut stack = vec![ValueType::Int(7), ValueType::Int(count)];
        assert_eq!(
            execute(&mut stack, OperationType::For).unwrap_err(),
            RuntimeError::MismatchedTypes {
                expected: "Scope".to_string(),
                got: ValueType::Int(7),
            }
        );
        assert!(stack.is_empty());
    }
}

#[test]
fn while_needs_a_scope() {
    for condition in [1, 0] {
        let mut stack = vec![ValueType::Int(7), ValueType::Int(condition)];
        assert_eq!(
            execute(&mut stack, OperationType::While).unwrap_err(),
            RuntimeError::MismatchedTypes {
                expected: "Scope".to_string(),
                got: ValueType::Int(7),
            }
        );
        assert!(stack.is_empty());
    }
}

#[test]
fn while_with_a_false_start_never_runs_its_body() {
    let mut stack = vec![
        ValueType::Scope(vec![Stack::Operation(OperationType::Print)]),
        ValueType::Int(0),
    ];
    let written = execute(&mut stack, OperationType::While).unwrap();
    assert!(written.is_empty());
    assert_eq!(stack, vec![ValueType::Int(0)]);
}

#[test]
fn while_on_an_emptied_stack_fails() {
    let mut stack = vec![
        ValueType::Scope(vec![Stack::Operation(OperationType::Pop)]),
        ValueType::Int(1),
    ];
    assert_eq!(
        execute(&mut stack, OperationType::While).unwrap_err(),
        RuntimeError::InsufficientArguments {
            needed: 1,
            got: 0,
            value_stack: vec![],
        }
    );
}

#[test]
fn a_run_can_stop_and_go_on() {
    // 0 { 1 + } 5 for
    let program = vec![
        Stack::Value(ValueType::Int(0)),
        Stack::Value(ValueType::Scope(vec![
            Stack::Value(ValueType::Int(1)),
            Stack::Operation(OperationType::Add),
        ])),
        Stack::Value(ValueType::Int(5)),
        Stack::Operation(OperationType::For),
    ];
    let mut machine = Machine::new(program, Vec::new());
    let mut pauses = 0;
    loop {
        match run(&mut machine, 1).unwrap() {
            Status::Running => pauses += 1,
            Status::Finished => break,
            Status::Waiting(request) => panic!("nothing to ask: {:?}", request),
        }
    }
    assert_eq!(machine.stack, vec![ValueType::Int(5)]);
    assert!(machine.finished());
    // 4 entries, 1 block closed, 5 times (open, 2 entries, close), 1 for closed
    assert_eq!(pauses, 4 + 1 + 5 * 4 + 1);
    assert_eq!(run(&mut machine, 0).unwrap(), Status::Running);
    assert_eq!(machine.step().unwrap(), Status::Finished);
}

#[test]
fn a_failure_leaves_the_stack_as_it_was_at_that_moment() {
    let program = vec![
        Stack::Value(ValueType::Int(1)),
        Stack::Value(ValueType::Int(2)),
        Stack::Operation(OperationType::Add),
        Stack::Value(ValueType::Bool(true)),
        Stack::Operation(OperationType::Add),
        Stack::Value(ValueType::Int(9)),
    ];
    let mut machine = Machine::new(program, Vec::new());
    assert_eq!(
        run(&mut machine, 100).unwrap_err(),
        RuntimeError::MismatchedTypes {
            expected: "Int".to_string(),
            got: ValueType::Bool(true),
        }
    );
    assert!(machine.stack.is_empty());
    assert_eq!(
        machine.frames,
        vec![Frame::Block {
            code: vec![
                Stack::Value(ValueType::Int(1)),
                Stack::Value(ValueType::Int(2)),
                Stack::Operation(OperationType::Add),
                Stack::Value(ValueType::Bool(true)),
                Stack::Operation(OperationType::Add),
                Stack::Value(ValueType::Int(9)),
            ],
            next: 5,
        }]
    );
}

#[test]
fn decimals_are_converted_when_they_run() {
    let program = vec![
        Stack::Decimal("1.5".to_string()),
        Stack::Decimal("2.25".to_string()),
        Stack::Operation(OperationType::Add),
    ];
    assert_eq!(run_program(program).unwrap(), vec![float(3.75)]);
}

#[test]
fn nested_control_flow() {
    // 0 { { 1 + } 3 for } 2 for  ... a scope that runs itself via copy
    let inner = ValueType::Scope(vec![
        Stack::Value(ValueType::Int(1)),
        Stack::Operation(OperationType::Add),
    ]);
    let outer = ValueType::Scope(vec![
        Stack::Value(inner),
        Stack::Value(ValueType::Int(3)),
        Stack::Operation(OperationType::For),
    ]);
    let program = vec![
        Stack::Value(ValueType::Int(0)),
        Stack::Value(outer),
        Stack::Value(ValueType::Int(2)),
        Stack::Operation(OperationType::For),
    ];
    assert_eq!(run_program(program).unwrap(), vec![ValueType::Int(6)]);
}

#[test]
fn comparisons_of_doubles_agree_with_the_hardware() {
    let samples = [
        0.0,
        -0.0,
        1.0,
        -1.0,
        0.5,
        -0.5,
        f64::MIN_POSITIVE,
        -f64::MIN_POSITIVE,
        5e-324,
        -5e-324,
        f64::MAX,
        f64::MIN,
        f64::INFINITY,
        f64::NEG_INFINITY,
        f64::NAN,
        -f64::NAN,
        56.789,
        1e300,
        -1e-300,
    ];
    for first in samples {
        assert_eq!(float(first).truthy(), first != 0.0);
        for second in samples {
            // the top of the stack is the first operand
            for (operation, expected) in [
                (OperationType::Lt, first < second),
                (OperationType::Gt, first > second),
                (OperationType::Eq, first == second),
                (OperationType::Leq, first <= second),
                (OperationType::Geq, first >= second),
            ] {
                let mut stack = vec![float(second), float(first)];
                execute(&mut stack, operation).unwrap();
                assert_eq!(
                    stack,
                    vec![ValueType::Bool(expected)],
                    "{} {:?} {}",
                    first,
                    operation,
                    second
                );
            }
        }
    }
}
