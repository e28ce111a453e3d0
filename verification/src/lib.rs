//! An interpreter for TRNG, a word-mnemonic esoteric language over a single
//! linear byte tape: a lexer that turns a byte stream into typed tokens, a
//! bounded tape with checked pointer and cell arithmetic and big-endian
//! multi-width numeric access, and a dispatch loop with bracket-style
//! looping over an explicit stack of loop-open indices.
//!
//! Every component is specified against a mathematical model -- the tape
//! against `tape::TapeView`, the lexer against `lexer::spec_tokenize`, the
//! interpreter against the small-step machine in `interpreter` -- and each
//! executable function promises to do exactly what its model says.  Byte
//! input and output go through buffers on the tape, so a front-end supplies
//! input up front and collects output after a run.

pub mod float;
pub mod interpreter;
pub mod lexer;
pub mod num;
pub mod settings;
pub mod tape;
pub mod text;
pub mod translator;
pub mod ui;

pub use interpreter::Interpreter;
pub use interpreter::InterpreterError;
pub use settings::InterpreterSettings;

use vstd::prelude::*;

verus! {

/// Number of cells a tape has when no size is chosen explicitly.
pub const DEFAULT_TAPE_SIZE: usize = 30000;

} // verus!
