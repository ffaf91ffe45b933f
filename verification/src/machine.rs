//! The executable machine: the state of one run and the code that advances it.
use crate::fault::Fault;
use crate::instruction::{texts, Instruction};
use crate::number::{parse_integer, render_integer};
use crate::program::Program;
use crate::registers::Registers;
use crate::semantics::{at_end, bare_quote, halted, message, message_from, operand_value, quotient,
    result, run, step, State};
use crate::text::{append, find, lemma_has_match, strip, to_chars, to_string, Pattern};
use vstd::prelude::*;

verus! {

/// The largest number of instructions that one call of [`Machine::run`] executes.
pub const STEP_LIMIT: u64 = 0xffff_ffff_ffff_ffff;

/// The state of one run: registers, call stack, instruction pointer, the two
/// flags, the last message, and the fault that stopped the run, if any.
pub struct Machine {
    stack: Vec<usize>,
    registers: Registers,
    pointer: usize,
    zero: bool,
    carry: bool,
    output: String,
    fault: Option<Fault>,
}

impl View for Machine {
    type V = State;

    closed spec fn view(&self) -> State {
        State {
            registers: self.registers@,
            stack: self.stack@,
            pointer: self.pointer,
            zero: self.zero,
            carry: self.carry,
            output: self.output@,
            fault: self.fault,
        }
    }
}

/// The value of the operand spelled by `chars`, which are the characters of `token`.
fn value_of(registers: &Registers, token: &String, chars: &[char]) -> (value: i64)
    requires
        chars@ == token@,
    ensures
        value == operand_value(registers@, token@),
{
    match parse_integer(chars) {
        Some(value) => value,
        None => registers.get(token),
    }
}

/// Builds the text of a message from its pieces.
fn render(pieces: &Vec<String>, registers: &Registers) -> (text: String)
    ensures
        text@ == message(texts(pieces@), registers@),
{
    let ghost all = texts(pieces@);
    let mut buffer: Vec<char> = Vec::new();
    let mut opened = false;
    let mut at: usize = 0;
    assert(all.skip(0) == all);
    while at < pieces.len()
        invariant
            at <= pieces@.len(),
            all == texts(pieces@),
            buffer@ + message_from(all.skip(at as int), registers@, opened) == message(
                all,
                registers@,
            ),
        decreases pieces@.len() - at,
    {
        let piece = to_chars(pieces[at].as_str());
        let chars = piece.as_slice();
        let bare = chars.len() == 1 && chars[0] == '\'';
        proof {
            assert(all.skip(at as int).drop_first() == all.skip(at + 1));
            lemma_has_match(chars@, Pattern::Char('\''));
            if bare {
                assert(chars@ =~= bare_quote());
            }
        }
        if bare {
            buffer.push(
                if opened {
                    ' '
                } else {
                    ','
                },
            );
        } else if find(chars, Pattern::Char('\''), 0) < chars.len() {
            append(&mut buffer, strip(chars, Pattern::Char('\'')));
        } else {
            render_integer(value_of(registers, &pieces[at], chars), &mut buffer);
        }
        opened = opened != bare;
        at += 1;
    }
    to_string(buffer.as_slice())
}

impl Machine {
    /// A machine in the state in which every run starts.
    pub fn new() -> (machine: Self)
        ensures
            machine@ == State::initial(),
    {
        Machine {
            stack: Vec::new(),
            registers: Registers::new(),
            pointer: 0,
            zero: false,
            carry: false,
            output: String::new(),
            fault: None,
        }
    }

    /// The registers written so far.
    pub fn registers(&self) -> (registers: &Registers)
        ensures
            registers@ == self@.registers,
    {
        &self.registers
    }

    /// The return positions of the calls that have not returned yet, oldest first.
    pub fn stack(&self) -> (stack: &Vec<usize>)
        ensures
            stack@ == self@.stack,
    {
        &self.stack
    }

    /// The position of the instruction to execute next.
    pub fn pointer(&self) -> (pointer: usize)
        ensures
            pointer == self@.pointer,
    {
        self.pointer
    }

    /// The zero flag.
    pub fn zero_flag(&self) -> (flag: bool)
        ensures
            flag == self@.zero,
    {
        self.zero
    }

    /// The carry flag.
    pub fn carry_flag(&self) -> (flag: bool)
        ensures
            flag == self@.carry,
    {
        self.carry
    }

    /// The text of the last message.
    pub fn output(&self) -> (output: &String)
        ensures
            output@ == self@.output,
    {
        &self.output
    }

    /// The fault that stopped the run, if one did.
    pub fn fault(&self) -> (fault: Option<Fault>)
        ensures
            fault == self@.fault,
    {
        self.fault
    }

    /// Stops the run with `fault`.
    pub(crate) fn fail(&mut self, fault: Fault)
        ensures
            final(self)@ == old(self)@.fail(fault),
    {
        self.fault = Some(fault);
    }

    /// The value of the operand `token`: that of the literal if it is one, else
    /// the content of the register of that name.
    pub fn operand(&self, token: &String) -> (value: i64)
        ensures
            value == operand_value(self@.registers, token@),
    {
        let chars = to_chars(token.as_str());
        value_of(&self.registers, token, chars.as_slice())
    }

    /// Stores the outcome of an arithmetic instruction in the register `name` and
    /// moves on, or stops with an overflow where there is no outcome.
    fn store(&mut self, name: &String, outcome: Option<i64>)
        requires
            old(self).pointer < usize::MAX,
        ensures
            match outcome {
                Some(value) => final(self)@ == old(self)@.store(name@, value as int),
                None => final(self)@ == old(self)@.fail(Fault::Overflow),
            },
    {
        match outcome {
            Some(value) => {
                self.registers.set(name, value);
                self.pointer = self.pointer + 1;
            },
            None => {
                self.fault = Some(Fault::Overflow);
            },
        }
    }

    /// Transfers control to `label`, or stops where the program does not define it.
    fn jump(&mut self, program: &Program, label: &String)
        ensures
            final(self)@ == old(self)@.jump(program@, label@),
    {
        match program.resolve(label) {
            Some(target) => {
                self.pointer = target;
            },
            None => {
                self.fault = Some(Fault::UnresolvedLabel);
            },
        }
    }

    /// Jumps to `label` if `taken`, and moves on to the next instruction if not.
    fn branch(&mut self, program: &Program, label: &String, taken: bool)
        requires
            old(self).pointer < usize::MAX,
        ensures
            final(self)@ == old(self)@.branch(program@, label@, taken),
    {
        if taken {
            self.jump(program, label);
        } else {
            self.pointer = self.pointer + 1;
        }
    }

    /// Tells whether the run has come to a stop.
    pub fn halted(&self, program: &Program) -> (stopped: bool)
        ensures
            stopped == halted(program@, self@),
    {
        let list = program.instructions();
        if self.fault.is_some() || self.pointer >= list.len() {
            true
        } else {
            match &list[self.pointer] {
                Instruction::End => true,
                _ => false,
            }
        }
    }

    /// Tells whether the run stands at an `end` that no fault kept it from reaching.
    pub fn at_end(&self, program: &Program) -> (reached: bool)
        ensures
            reached == at_end(program@, self@),
    {
        let list = program.instructions();
        if self.fault.is_some() || self.pointer >= list.len() {
            false
        } else {
            match &list[self.pointer] {
                Instruction::End => true,
                _ => false,
            }
        }
    }

    /// Executes the instruction at the pointer. Does nothing once the run has stopped.
    pub fn step(&mut self, program: &Program)
        ensures
            final(self)@ == step(program@, old(self)@),
    {
        let list = program.instructions();
        if self.fault.is_some() || self.pointer >= list.len() {
            return ;
        }
        match &list[self.pointer] {
            Instruction::Mov(dst, src) => {
                let value = self.operand(src);
                self.store(dst, Some(value));
            },
            Instruction::Inc(dst) => {
                let value = self.registers.get(dst);
                self.store(dst, value.checked_add(1));
            },
            Instruction::Dec(dst) => {
                let value = self.registers.get(dst);
                self.store(dst, value.checked_sub(1));
            },
            Instruction::Add(dst, src) => {
                let value = self.registers.get(dst);
                let other = self.operand(src);
                self.store(dst, value.checked_add(other));
            },
            Instruction::Sub(dst, src) => {
                let value = self.registers.get(dst);
                let other = self.operand(src);
                self.store(dst, value.checked_sub(other));
            },
            Instruction::Mul(dst, src) => {
                let value = self.registers.get(dst);
                let other = self.operand(src);
                self.store(dst, value.checked_mul(other));
            },
            Instruction::Div(dst, src) => {
                let value = self.registers.get(dst);
                let other = self.operand(src);
                if other == 0 {
                    self.fault = Some(Fault::DivisionByZero);
                } else {
                    proof {
                        lemma_zero_quotient(other as int);
                    }
                    self.store(dst, value.checked_div(other));
                }
            },
            Instruction::Function(_) => {
                self.pointer = self.pointer + 1;
            },
            Instruction::Call(label) => {
                match program.resolve(label) {
                    Some(target) => {
                        self.stack.push(self.pointer + 1);
                        self.pointer = target;
                    },
                    None => {
                        self.fault = Some(Fault::UnresolvedLabel);
                    },
                }
            },
            Instruction::Cmp(left, right) => {
                let first = self.operand(left);
                let second = self.operand(right);
                self.zero = first == second;
                self.carry = first < second;
                self.pointer = self.pointer + 1;
            },
            Instruction::Jmp(label) => {
                self.jump(program, label);
            },
            Instruction::Jne(label) => {
                self.branch(program, label, !self.zero);
            },
            Instruction::Je(label) => {
                self.branch(program, label, self.zero);
            },
            Instruction::Jge(label) => {
                self.branch(program, label, self.zero || !self.carry);
            },
            Instruction::Jg(label) => {
                self.branch(program, label, !self.zero && !self.carry);
            },
            Instruction::Jle(label) => {
                self.branch(program, label, self.carry || self.zero);
            },
            Instruction::Jl(label) => {
                self.branch(program, label, self.carry);
            },
            Instruction::Msg(pieces) => {
                self.output = render(pieces, &self.registers);
                self.pointer = self.pointer + 1;
            },
            Instruction::Ret => {
                match self.stack.pop() {
                    Some(target) => {
                        self.pointer = target;
                    },
                    None => {
                        self.fault = Some(Fault::StackUnderflow);
                    },
                }
            },
            Instruction::End => {},
            Instruction::Nop => {
                self.pointer = self.pointer + 1;
            },
        }
    }

    /// Runs the program from the present state until the run stops or `limit`
    /// instructions have been executed. Yields the last message if the run stands
    /// at an `end`, and nothing otherwise.
    pub fn run_for(&mut self, program: &Program, limit: u64) -> (output: Option<String>)
        ensures
            final(self)@ == run(program@, old(self)@, limit as nat),
            match output {
                Some(text) => result(program@, final(self)@) == Some(text@),
                None => result(program@, final(self)@) is None,
            },
    {
        let mut left: u64 = limit;
        while left > 0 && !self.halted(program)
            invariant
                run(program@, self@, left as nat) == run(program@, old(self)@, limit as nat),
            decreases left,
        {
            self.step(program);
            left -= 1;
        }
        if self.at_end(program) {
            Some(self.output.clone())
        } else {
            None
        }
    }

    /// Runs the program from the present state until the run stops, for at most
    /// [`STEP_LIMIT`] instructions. Yields the last message if the run stands at
    /// an `end`, and nothing otherwise.
    pub fn run(&mut self, program: &Program) -> (output: Option<String>)
        ensures
            final(self)@ == run(program@, old(self)@, STEP_LIMIT as nat),
            match output {
                Some(text) => result(program@, final(self)@) == Some(text@),
                None => result(program@, final(self)@) is None,
            },
    {
        self.run_for(program, STEP_LIMIT)
    }
}

/// Zero divided by anything but zero is zero.
proof fn lemma_zero_quotient(b: int)
    requires
        b != 0,
    ensures
        quotient(0, b) == 0,
{
    let size = if b < 0 {
        -b
    } else {
        b
    };
    assert(0int / size == 0) by (nonlinear_arith)
        requires
            size > 0,
    ;
}

} // verus!
