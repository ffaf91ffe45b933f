//! What running a program means: the machine's state and its transitions, as
//! mathematics. The executable machine is proved to follow these definitions.
use crate::fault::Fault;
use crate::instruction::InstructionView;
use crate::number::{decimal, literal_value};
use crate::program::ProgramView;
use crate::registers::read;
use crate::text::{has_match, stripped, Pattern};
use vstd::prelude::*;

verus! {

/// The state of one run.
#[verifier::ext_equal]
pub struct State {
    /// The registers written so far; any other register reads as zero.
    pub registers: Map<Seq<char>, i64>,
    /// The return positions of the calls that have not returned yet, oldest first.
    pub stack: Seq<usize>,
    /// The position of the instruction to execute next.
    pub pointer: usize,
    /// Set by a compare of equal operands.
    pub zero: bool,
    /// Set by a compare whose left operand is the smaller.
    pub carry: bool,
    /// The text of the last message.
    pub output: Seq<char>,
    /// The fault that stopped the run, if one did.
    pub fault: Option<Fault>,
}

impl State {
    /// The state in which every run starts.
    pub open spec fn initial() -> State {
        State {
            registers: Map::empty(),
            stack: Seq::empty(),
            pointer: 0,
            zero: false,
            carry: false,
            output: Seq::empty(),
            fault: None,
        }
    }

    /// This state, moved on to the next instruction.
    pub open spec fn advance(self) -> State {
        State { pointer: (self.pointer + 1) as usize, ..self }
    }

    /// This state, stopped by `fault`.
    pub open spec fn fail(self, fault: Fault) -> State {
        State { fault: Some(fault), ..self }
    }

    /// This state after an arithmetic instruction that computed `value` for the
    /// register `name`: the value is stored if a register can hold it, and the run
    /// stops with an overflow otherwise.
    pub open spec fn store(self, name: Seq<char>, value: int) -> State {
        if i64::MIN <= value <= i64::MAX {
            State { registers: self.registers.insert(name, value as i64), ..self }.advance()
        } else {
            self.fail(Fault::Overflow)
        }
    }

    /// This state after a transfer of control to `label`.
    pub open spec fn jump(self, program: ProgramView, label: Seq<char>) -> State {
        if program.labels.contains_key(label) {
            State { pointer: program.labels[label], ..self }
        } else {
            self.fail(Fault::UnresolvedLabel)
        }
    }

    /// This state after a conditional jump to `label` whose condition is `taken`.
    pub open spec fn branch(self, program: ProgramView, label: Seq<char>, taken: bool) -> State {
        if taken {
            self.jump(program, label)
        } else {
            self.advance()
        }
    }

    /// This state after a call of `label`: the position after the call is pushed
    /// and control goes to the label.
    pub open spec fn call(self, program: ProgramView, label: Seq<char>) -> State {
        if program.labels.contains_key(label) {
            State {
                pointer: program.labels[label],
                stack: self.stack.push((self.pointer + 1) as usize),
                ..self
            }
        } else {
            self.fail(Fault::UnresolvedLabel)
        }
    }

    /// This state after a return: control goes to the position popped off the stack.
    pub open spec fn ret(self) -> State {
        if self.stack.len() > 0 {
            State { pointer: self.stack.last(), stack: self.stack.drop_last(), ..self }
        } else {
            self.fail(Fault::StackUnderflow)
        }
    }

    /// This state after a compare of `left` with `right`.
    pub open spec fn compare(self, left: i64, right: i64) -> State {
        State { zero: left == right, carry: left < right, ..self }.advance()
    }
}

/// The value of an operand: that of the literal if `token` is one, else the
/// content of the register that `token` names.
pub open spec fn operand_value(registers: Map<Seq<char>, i64>, token: Seq<char>) -> i64 {
    match literal_value(token) {
        Some(value) => value,
        None => read(registers, token),
    }
}

/// The quotient of `a` by `b` rounded toward zero, for `b` other than zero: its
/// size is that of `|a| / |b|`, and it is negative only where the signs differ.
pub open spec fn quotient(a: int, b: int) -> int {
    let size = (if a < 0 {
        -a
    } else {
        a
    }) / (if b < 0 {
        -b
    } else {
        b
    });
    if (a < 0) == (b < 0) {
        size
    } else {
        -size
    }
}

/// The piece that is a quote mark and nothing else.
pub open spec fn bare_quote() -> Seq<char> {
    seq!['\'']
}

/// What one piece of a message contributes. A bare quote mark stands for a
/// separator: a comma where it opens a literal, a space where it closes one. A piece
/// that holds a quote mark is literal text, taken without the quote marks at its
/// ends. Any other piece is an operand, shown as its decimal value.
pub open spec fn piece_text(piece: Seq<char>, registers: Map<Seq<char>, i64>, opened: bool) -> Seq<
    char,
> {
    if piece == bare_quote() {
        if opened {
            seq![' ']
        } else {
            seq![',']
        }
    } else if has_match(piece, Pattern::Char('\'')) {
        stripped(piece, Pattern::Char('\''))
    } else {
        decimal(operand_value(registers, piece) as int)
    }
}

/// The text of the pieces from left to right, where `opened` tells whether a
/// bare quote mark has opened a literal that is not closed yet.
pub open spec fn message_from(
    pieces: Seq<Seq<char>>,
    registers: Map<Seq<char>, i64>,
    opened: bool,
) -> Seq<char>
    decreases pieces.len(),
{
    if pieces.len() == 0 {
        Seq::empty()
    } else {
        piece_text(pieces[0], registers, opened) + message_from(
            pieces.drop_first(),
            registers,
            opened != (pieces[0] == bare_quote()),
        )
    }
}

/// The text that a message instruction with these pieces writes.
pub open spec fn message(pieces: Seq<Seq<char>>, registers: Map<Seq<char>, i64>) -> Seq<char> {
    message_from(pieces, registers, false)
}

/// Whether the run has come to a stop in `state`: by a fault, by running past the
/// last instruction, or at an `end`.
pub open spec fn halted(program: ProgramView, state: State) -> bool {
    ||| state.fault is Some
    ||| state.pointer >= program.instructions.len()
    ||| program.instructions[state.pointer as int] is End
}

/// Whether `state` stands at an `end` that no fault kept it from reaching.
pub open spec fn at_end(program: ProgramView, state: State) -> bool {
    &&& state.fault is None
    &&& state.pointer < program.instructions.len()
    &&& program.instructions[state.pointer as int] is End
}

/// What a run that stopped in `state` yields: the last message where it stopped
/// at an `end`, and nothing otherwise.
pub open spec fn result(program: ProgramView, state: State) -> Option<Seq<char>> {
    if at_end(program, state) {
        Some(state.output)
    } else {
        None
    }
}

/// The state after the instruction at the pointer of `state` has been executed.
/// A state in which the run has stopped stays as it is.
pub open spec fn step(program: ProgramView, state: State) -> State {
    if halted(program, state) {
        state
    } else {
        let registers = state.registers;
        match program.instructions[state.pointer as int] {
            InstructionView::Mov(dst, src) => state.store(dst, operand_value(registers, src) as int),
            InstructionView::Inc(dst) => state.store(dst, read(registers, dst) + 1),
            InstructionView::Dec(dst) => state.store(dst, read(registers, dst) - 1),
            InstructionView::Add(dst, src) => state.store(
                dst,
                read(registers, dst) + operand_value(registers, src),
            ),
            InstructionView::Sub(dst, src) => state.store(
                dst,
                read(registers, dst) - operand_value(registers, src),
            ),
            InstructionView::Mul(dst, src) => state.store(
                dst,
                read(registers, dst) * operand_value(registers, src),
            ),
            InstructionView::Div(dst, src) => if operand_value(registers, src) == 0 {
                state.fail(Fault::DivisionByZero)
            } else {
                state.store(
                    dst,
                    quotient(read(registers, dst) as int, operand_value(registers, src) as int),
                )
            },
            InstructionView::Function(_) => state.advance(),
            InstructionView::Call(label) => state.call(program, label),
            InstructionView::Cmp(left, right) => state.compare(
                operand_value(registers, left),
                operand_value(registers, right),
            ),
            InstructionView::Jmp(label) => state.jump(program, label),
            InstructionView::Jne(label) => state.branch(program, label, !state.zero),
            InstructionView::Je(label) => state.branch(program, label, state.zero),
            InstructionView::Jge(label) => state.branch(program, label, state.zero || !state.carry),
            InstructionView::Jg(label) => state.branch(program, label, !state.zero && !state.carry),
            InstructionView::Jle(label) => state.branch(program, label, state.carry || state.zero),
            InstructionView::Jl(label) => state.branch(program, label, state.carry),
            InstructionView::Msg(pieces) => State {
                output: message(pieces, registers),
                ..state
            }.advance(),
            InstructionView::Ret => state.ret(),
            InstructionView::End => state,
            InstructionView::Nop => state.advance(),
        }
    }
}

/// The state after at most `steps` instructions, fewer where the run stops before.
pub open spec fn run(program: ProgramView, state: State, steps: nat) -> State
    decreases steps,
{
    if steps == 0 || halted(program, state) {
        state
    } else {
        run(program, step(program, state), (steps - 1) as nat)
    }
}

} // verus!
