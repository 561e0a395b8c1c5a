//! An assembler and an emulator for the Little Man Computer: a machine with
//! one accumulator, a hundred memory cells and eleven mnemonics.
//!
//! A program goes through three stages on its way into the machine. The
//! [`lexer`] turns its text into tokens, the [`parser`] turns the tokens into
//! a list of instructions and a table of labels, and the [`generator`] turns
//! those into the hundred cells of a memory image. [`compiler::compile`] is
//! the three in one call. The machine itself is [`vm::Computer`], which runs
//! an image one instruction at a time, and [`runtime::respond`] is the
//! session between the machine and whoever drives it.
//!
//! Every function states what it returns over a mathematical value of its
//! arguments: the `View` of a data type, written `@`, holds sequences of
//! characters where the type holds strings, and sequences where it holds
//! vectors or arrays.

pub mod compiler;
pub mod generator;
pub mod lessons;
pub mod lexer;
pub mod message;
pub mod parser;
pub mod runtime;
pub mod text;
pub mod vm;
