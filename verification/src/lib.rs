//! A small assembly-like language: a line-oriented parser and a register machine
//! that runs the parsed program and yields the text of its last message.
//!
//! [`Interpreter::interpret`] takes a source text, parses it into a [`Program`]
//! and runs it on a fresh [`Machine`]. The run yields the last message if it stops
//! at an `end`, and nothing if it runs past the last instruction or is stopped by
//! a [`Fault`]; the state in which it stopped stays readable either way.
//!
//! The meaning of a source text is defined in [`instruction`] and [`program`]
//! (the grammar) and in [`semantics`] (the machine), as functions over sequences
//! of characters. The executable code is proved to compute exactly these
//! functions, and [`laws`] holds properties that follow from them.
pub mod fault;
pub mod instruction;
pub mod interpreter;
pub mod laws;
pub mod machine;
pub mod number;
pub mod program;
pub mod registers;
pub mod semantics;
pub mod text;

pub use fault::Fault;
pub use instruction::Instruction;
pub use interpreter::Interpreter;
pub use machine::Machine;
pub use program::Program;
pub use registers::Registers;
