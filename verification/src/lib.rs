//! A small virtual machine for the eight-instruction tape language
//! commonly known as Brainfuck.
//!
//! Source text is decoded into a sequence of [`command::Command`]s, its loop
//! brackets are matched into a jump table ([`program::ResolvedProgram`]), and
//! the result is executed by a [`machine::Machine`].

pub mod bracket;
pub mod command;
pub mod error;
pub mod machine;
pub mod model;
pub mod program;
