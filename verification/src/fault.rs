//! The conditions that stop a program abnormally.
use vstd::prelude::*;

verus! {

/// Why a program could not be run to a clean stop.
#[derive(Debug, Clone, Copy, PartialEq, Eq, Structural)]
pub enum Fault {
    /// A source line names an instruction of two operands and gives fewer.
    /// `line` counts the lines of the source from zero.
    MissingOperand { line: usize },
    /// A call or jump names a label that the program does not define.
    UnresolvedLabel,
    /// A `ret` found the call stack empty.
    StackUnderflow,
    /// A `div` by zero.
    DivisionByZero,
    /// The result of an arithmetic instruction does not fit a register.
    Overflow,
}

} // verus!
