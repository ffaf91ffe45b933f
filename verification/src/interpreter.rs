//! The interpreter: a program together with the machine that runs it.
use crate::machine::{Machine, STEP_LIMIT};
use crate::program::{compile, Program, ProgramView};
use crate::semantics::{operand_value, result, run, State};
use vstd::prelude::*;

verus! {

/// The program that an interpreter holds for `source`: the one that the text
/// stands for, or the empty program where a line of it lacks an operand.
pub open spec fn loaded(source: Seq<char>) -> ProgramView {
    match compile(source) {
        Ok(program) => program,
        Err(_) => ProgramView::empty(),
    }
}

/// The state in which interpreting `source` leaves the machine: that of the run
/// of its program from the initial state, or the initial state stopped by the
/// fault of the text where a line of it lacks an operand.
pub open spec fn final_state(source: Seq<char>) -> State {
    match compile(source) {
        Ok(program) => run(program, State::initial(), STEP_LIMIT as nat),
        Err(fault) => State::initial().fail(fault),
    }
}

/// What interpreting `source` yields: the last message if the run stopped at an
/// `end`, and nothing otherwise.
pub open spec fn interpretation(source: Seq<char>) -> Option<Seq<char>> {
    result(loaded(source), final_state(source))
}

/// A program and the machine that runs it.
pub struct Interpreter<'a> {
    /// The state of the run.
    pub state: Machine,
    /// The program that is run.
    pub program: Program<'a>,
}

impl<'a> Interpreter<'a> {
    /// An interpreter for `source` in the initial state; the text is not parsed yet.
    pub fn new(source: &'a str) -> (interpreter: Self)
        ensures
            interpreter.state@ == State::initial(),
            interpreter.program@ == ProgramView::empty(),
            interpreter.program.source() == source@,
    {
        Interpreter { state: Machine::new(), program: Program::new(source) }
    }

    /// Parses `input` and runs it from the first instruction. Returns the
    /// interpreter as the run left it and, if the run stopped at an `end`, the
    /// last message. Where nothing is returned, the state tells why: it holds the
    /// fault, or a pointer past the last instruction, or, after [`STEP_LIMIT`]
    /// instructions, a run that has not stopped.
    pub fn interpret(input: &'a str) -> (outcome: (Self, Option<String>))
        ensures
            outcome.0.program.source() == input@,
            outcome.0.program@ == loaded(input@),
            outcome.0.state@ == final_state(input@),
            match outcome.1 {
                Some(text) => interpretation(input@) == Some(text@),
                None => interpretation(input@) is None,
            },
    {
        let mut interpreter = Interpreter::new(input);
        match interpreter.program.parse() {
            Ok(()) => {
                let output = interpreter.run();
                (interpreter, output)
            },
            Err(fault) => {
                interpreter.state.fail(fault);
                (interpreter, None)
            },
        }
    }

    /// Runs the program from the present state until the run stops, for at most
    /// [`STEP_LIMIT`] instructions. Yields the last message if the run stands at
    /// an `end`, and nothing otherwise.
    pub fn run(&mut self) -> (output: Option<String>)
        ensures
            final(self).program == old(self).program,
            final(self).state@ == run(old(self).program@, old(self).state@, STEP_LIMIT as nat),
            match output {
                Some(text) => result(old(self).program@, final(self).state@) == Some(text@),
                None => result(old(self).program@, final(self).state@) is None,
            },
    {
        self.state.run(&self.program)
    }

    /// The value of the operand `src`: that of the literal if it is one, else the
    /// content of the register of that name, zero if it was never written.
    pub fn constant_or_register(&self, src: &str) -> (value: i64)
        ensures
            value == operand_value(self.state@.registers, src@),
    {
        let token = src.to_owned();
        self.state.operand(&token)
    }
}

} // verus!
