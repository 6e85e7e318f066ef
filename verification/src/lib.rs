//! A translator from a stack-machine instruction set to the assembly of a
//! 16-bit machine with one data register, one address register and an
//! evaluation stack kept in memory.
//!
//! `parser` scans a source text and recognizes its commands, `code_writer`
//! generates the assembly of each command from the sequences in `templates`,
//! and `translate` drives the two over a unit or a whole program.
//! `assembly` is the target language's own vocabulary and `text` holds the
//! character-level routines below all of them.
//!
//! `machine` is a model of the target machine, `execution` runs the shared
//! templates on it, and `laws` states what is proved of the generated code:
//! what every block computes, that the calling convention restores the
//! caller, and that generated names never collide.

use vstd::prelude::*;

pub mod error;
pub mod text;
pub mod assembly;
pub mod templates;
pub mod code_writer;
pub mod parser;
pub mod translate;
pub mod machine;
pub mod execution;
pub mod laws;

pub use error::TranslateError;
pub use parser::{Command, CommandType, Parser};
