//! The machine: a stack of values, and a stack of frames that tells what is being
//! run.
//!
//! One step executes one instruction, or opens or closes one frame. The machine
//! never calls itself: a scope that an operation wants run becomes a frame on top
//! of the others. So a run can stop after any step and go on later, which is how
//! the host gets to print, and to compute with doubles, in the middle of a
//! program.

use vstd::prelude::*;
use crate::error::{RuntimeError, RuntimeFault};
use crate::runtime::effect::{Action, Demand, Effect, Request};
use crate::runtime::executors::{applied, execute_operation, lacking};
use crate::value::{
    copy_program, copy_values, instructions, lemma_values_push, values, Instruction, Stack, Value,
    ValueType,
};

verus! {

/// What the machine is in the middle of.
#[derive(Debug, PartialEq)]
pub enum Frame {
    /// A program, of which the entries before `next` have been executed.
    Block { code: Vec<Stack>, next: usize },
    /// A `for`: `body` is still to be run `left` times.
    Times { body: Vec<Stack>, left: i64 },
    /// A `while`: `body` is run again whenever the top of the stack is true.
    Loop { body: Vec<Stack> },
}

/// The mathematical content of a [`Frame`].
pub enum Level {
    Block { code: Seq<Instruction>, next: usize },
    Times { body: Seq<Instruction>, left: i64 },
    Loop { body: Seq<Instruction> },
}

impl View for Frame {
    type V = Level;

    open spec fn view(&self) -> Level {
        match self {
            Frame::Block { code, next } => Level::Block { code: instructions(code@), next: *next },
            Frame::Times { body, left } => Level::Times { body: instructions(body@), left: *left },
            Frame::Loop { body } => Level::Loop { body: instructions(body@) },
        }
    }
}

/// The contents of a stack of frames.
pub open spec fn levels(frames: Seq<Frame>) -> Seq<Level> {
    Seq::new(frames.len(), |i: int| frames[i]@)
}

/// A stack machine. The innermost frame is the last one.
#[derive(Debug, PartialEq)]
pub struct Machine {
    pub stack: Vec<ValueType>,
    pub frames: Vec<Frame>,
}

/// The mathematical content of a [`Machine`].
pub struct State {
    pub stack: Seq<Value>,
    pub frames: Seq<Level>,
}

impl View for Machine {
    type V = State;

    open spec fn view(&self) -> State {
        State { stack: values(self.stack@), frames: levels(self.frames@) }
    }
}

/// How the machine stands after a step or a run.
#[derive(Debug, PartialEq)]
pub enum Status {
    /// There is more to execute.
    Running,
    /// Every frame is closed: the program has ended.
    Finished,
    /// The host has to act before the run goes on.
    Waiting(Request),
}

/// The mathematical content of a [`Status`].
pub enum Report {
    Running,
    Finished,
    Waiting(Demand),
}

impl View for Status {
    type V = Report;

    open spec fn view(&self) -> Report {
        match self {
            Status::Running => Report::Running,
            Status::Finished => Report::Finished,
            Status::Waiting(request) => Report::Waiting(request@),
        }
    }
}

/// The machine after a step or a run, and what the step or run returns.
pub struct Stepped {
    pub state: State,
    pub result: Result<Report, RuntimeFault>,
}

/// What a call has come to: the machine as it is now, with what was returned.
pub open spec fn result_of(machine: Machine, res: Result<Status, RuntimeError>) -> Stepped {
    Stepped {
        state: machine@,
        result: match res {
            Ok(status) => Ok(status@),
            Err(error) => Err(error@),
        },
    }
}

/// Carrying out what an operation left to be done: a scope to be run becomes a new
/// innermost frame, a request goes to the host.
pub open spec fn performed(state: State, action: Action) -> Stepped {
    match action {
        Action::Nothing => Stepped { state, result: Ok(Report::Running) },
        Action::Enter { body } => Stepped {
            state: State { frames: state.frames.push(Level::Block { code: body, next: 0 }), ..state },
            result: Ok(Report::Running),
        },
        Action::Repeat { body, times } => Stepped {
            state: State { frames: state.frames.push(Level::Times { body, left: times }), ..state },
            result: Ok(Report::Running),
        },
        Action::Loop { body } => Stepped {
            state: State { frames: state.frames.push(Level::Loop { body }), ..state },
            result: Ok(Report::Running),
        },
        Action::Ask(demand) => Stepped { state, result: Ok(Report::Waiting(demand)) },
    }
}

/// Executing one entry of a program: a value joins the stack, a decimal goes to
/// the host to be converted, an operation is applied and what it leaves to be done
/// is carried out.
pub open spec fn executed(state: State, entry: Instruction) -> Stepped {
    match entry {
        Instruction::Value(value) => Stepped {
            state: State { stack: state.stack.push(value), ..state },
            result: Ok(Report::Running),
        },
        Instruction::Decimal(digits) => Stepped {
            state,
            result: Ok(Report::Waiting(Demand::Convert { digits })),
        },
        Instruction::Operation(operation) => {
            let outcome = applied(operation, state.stack);
            match outcome.result {
                Ok(action) => performed(State { stack: outcome.stack, ..state }, action),
                Err(fault) => Stepped {
                    state: State { stack: outcome.stack, ..state },
                    result: Err(fault),
                },
            }
        },
    }
}

/// One step of the machine.
///
/// Without a frame the program has ended. A block executes its next entry, or is
/// closed when none is left. A `for` that has runs left opens its body and counts
/// one down; one that has none is closed. A `while` looks at the top of the stack:
/// if it is true the body is opened, if not the `while` is closed for good; an empty
/// stack fails it.
pub open spec fn stepped(state: State) -> Stepped {
    if state.frames.len() == 0 {
        Stepped { state, result: Ok(Report::Finished) }
    } else {
        let below = state.frames.drop_last();
        match state.frames.last() {
            Level::Block { code, next } => if next >= code.len() {
                Stepped { state: State { frames: below, ..state }, result: Ok(Report::Running) }
            } else {
                executed(
                    State {
                        frames: below.push(Level::Block { code, next: (next + 1) as usize }),
                        ..state
                    },
                    code[next as int],
                )
            },
            Level::Times { body, left } => if left > 0 {
                Stepped {
                    state: State {
                        frames: below.push(Level::Times { body, left: (left - 1) as i64 }).push(
                            Level::Block { code: body, next: 0 },
                        ),
                        ..state
                    },
                    result: Ok(Report::Running),
                }
            } else {
                Stepped { state: State { frames: below, ..state }, result: Ok(Report::Running) }
            },
            Level::Loop { body } => if state.stack.len() == 0 {
                Stepped { state, result: Err(lacking(state.stack, 1)) }
            } else if state.stack.last().truthy() {
                Stepped {
                    state: State {
                        frames: state.frames.push(Level::Block { code: body, next: 0 }),
                        ..state
                    },
                    result: Ok(Report::Running),
                }
            } else {
                Stepped { state: State { frames: below, ..state }, result: Ok(Report::Running) }
            },
        }
    }
}

/// At most `fuel` steps of the machine: step after step for as long as the machine
/// is running.
pub open spec fn ran(state: State, fuel: nat) -> Stepped
    decreases fuel,
{
    if fuel == 0 {
        Stepped { state, result: Ok(Report::Running) }
    } else {
        let step = stepped(state);
        if step.result == Ok::<Report, RuntimeFault>(Report::Running) {
            ran(step.state, (fuel - 1) as nat)
        } else {
            step
        }
    }
}

/// Adding a frame to a stack of frames adds its content to the stack's content.
pub proof fn lemma_levels_push(frames: Seq<Frame>, frame: Frame)
    ensures
        levels(frames.push(frame)) == levels(frames).push(frame@),
{
}

/// Taking the innermost frame off takes its content off the stack's content.
pub proof fn lemma_levels_drop_last(frames: Seq<Frame>)
    requires
        frames.len() > 0,
    ensures
        levels(frames.drop_last()) == levels(frames).drop_last(),
        levels(frames).last() == frames.last()@,
{
}

impl Machine {
    /// A machine that is about to run `program` on `stack`.
    pub fn new(program: Vec<Stack>, stack: Vec<ValueType>) -> (machine: Machine)
        ensures
            machine@ == (State {
                stack: values(stack@),
                frames: seq![Level::Block { code: instructions(program@), next: 0 }],
            }),
    {
        let mut frames: Vec<Frame> = Vec::new();
        frames.push(Frame::Block { code: program, next: 0 });
        let machine = Machine { stack, frames };
        proof {
            assert(machine@.frames =~= seq![
                Level::Block { code: instructions(program@), next: 0 },
            ]);
        }
        machine
    }

    /// Whether the program has ended.
    pub fn finished(&self) -> (r: bool)
        ensures
            r == (self@.frames.len() == 0),
    {
        self.frames.len() == 0
    }

    /// Puts the double that the host computed or converted on top of the stack.
    pub fn supply(&mut self, bits: u64)
        ensures
            final(self)@ == (State {
                stack: old(self)@.stack.push(Value::Float(bits)),
                frames: old(self)@.frames,
            }),
    {
        proof {
            lemma_values_push(self.stack@, ValueType::Float(bits));
        }
        self.stack.push(ValueType::Float(bits));
    }

    /// Opens a frame on top of the others.
    fn open(&mut self, frame: Frame)
        ensures
            final(self)@ == (State {
                stack: old(self)@.stack,
                frames: old(self)@.frames.push(frame@),
            }),
    {
        proof {
            lemma_levels_push(self.frames@, frame);
        }
        self.frames.push(frame);
    }

    /// Closes the innermost frame and hands it out.
    fn close(&mut self) -> (frame: Frame)
        requires
            old(self)@.frames.len() > 0,
        ensures
            final(self)@ == (State {
                stack: old(self)@.stack,
                frames: old(self)@.frames.drop_last(),
            }),
            frame@ == old(self)@.frames.last(),
    {
        proof {
            lemma_levels_drop_last(self.frames@);
        }
        self.frames.pop().unwrap()
    }

    /// Carries out what an operation left to be done.
    pub fn perform(&mut self, effect: Effect) -> (status: Status)
        ensures
            result_of(*final(self), Ok(status)) == performed(old(self)@, effect@),
    {
        match effect {
            Effect::Nothing => Status::Running,
            Effect::Enter { body } => {
                self.open(Frame::Block { code: body, next: 0 });
                Status::Running
            },
            Effect::Repeat { body, times } => {
                self.open(Frame::Times { body, left: times });
                Status::Running
            },
            Effect::Loop { body } => {
                self.open(Frame::Loop { body });
                Status::Running
            },
            Effect::Ask(request) => Status::Waiting(request),
        }
    }

    /// Executes one entry of a program.
    pub fn execute(&mut self, entry: Stack) -> (res: Result<Status, RuntimeError>)
        ensures
            result_of(*final(self), res) == executed(old(self)@, entry@),
    {
        match entry {
            Stack::Value(value) => {
                proof {
                    lemma_values_push(self.stack@, value);
                }
                self.stack.push(value);
                Ok(Status::Running)
            },
            Stack::Decimal(digits) => Ok(Status::Waiting(Request::Convert { digits })),
            Stack::Operation(operation) => {
                match execute_operation(&mut self.stack, operation) {
                    Ok(effect) => Ok(self.perform(effect)),
                    Err(error) => Err(error),
                }
            },
        }
    }

    /// Does one step.
    pub fn step(&mut self) -> (res: Result<Status, RuntimeError>)
        ensures
            result_of(*final(self), res) == stepped(old(self)@),
    {
        if self.frames.len() == 0 {
            return Ok(Status::Finished);
        }
        match self.close() {
            Frame::Block { code, next } => {
                if next >= code.len() {
                    Ok(Status::Running)
                } else {
                    let entry = code[next].clone();
                    self.open(Frame::Block { code, next: next + 1 });
                    self.execute(entry)
                }
            },
            Frame::Times { body, left } => {
                if left > 0 {
                    let code = copy_program(&body);
                    self.open(Frame::Times { body, left: left - 1 });
                    self.open(Frame::Block { code, next: 0 });
                }
                Ok(Status::Running)
            },
            Frame::Loop { body } => {
                if self.stack.len() == 0 {
                    let error = RuntimeError::InsufficientArguments {
                        needed: 1,
                        got: 0,
                        value_stack: copy_values(&self.stack),
                    };
                    self.open(Frame::Loop { body });
                    proof {
                        assert(self@.frames =~= old(self)@.frames);
                    }
                    Err(error)
                } else if self.stack[self.stack.len() - 1].truthy() {
                    let code = copy_program(&body);
                    self.open(Frame::Loop { body });
                    self.open(Frame::Block { code, next: 0 });
                    proof {
                        assert(self@.frames =~= old(self)@.frames.push(
                            Level::Block { code: instructions(code@), next: 0 },
                        ));
                    }
                    Ok(Status::Running)
                } else {
                    Ok(Status::Running)
                }
            },
        }
    }
}

/// Runs the machine for `fuel` steps at most.
///
/// The run ends early when the program ends, when it fails, and when the host has
/// to act. It returns `Running` when the steps are used up: the machine is then in
/// the middle of the program, and another call goes on from there.
pub fn run(machine: &mut Machine, fuel: u64) -> (res: Result<Status, RuntimeError>)
    ensures
        result_of(*final(machine), res) == ran(old(machine)@, fuel as nat),
{
    let mut left: u64 = fuel;
    while left > 0
        invariant
            ran(machine@, left as nat) == ran(old(machine)@, fuel as nat),
        decreases left,
    {
        match machine.step() {
            Ok(Status::Running) => {},
            Ok(status) => {
                return Ok(status);
            },
            Err(error) => {
                return Err(error);
            },
        }
        left -= 1;
    }
    Ok(Status::Running)
}

} // verus!
