//! A two-pass assembler for a subset of the MIPS32 instruction set.
//!
//! Phase one tokenizes each source line, recognizes directives, labels and
//! instructions, and emits 32-bit machine words (with zero placeholders for
//! label operands).  Phase two resolves the recorded label references and
//! patches the placeholder fields.  The whole pipeline is specified by the
//! spec functions in [`model`], its laws are proved in [`laws`], and the
//! entry points are [`Parser::AsmLines`] and [`Parser::AsmStr`].
#![allow(non_snake_case)]

pub mod lex;
pub mod tables;
pub mod encode;
pub mod model;
pub mod assembler;
pub mod laws;

pub use assembler::AsmErrorInfo;
pub use assembler::Parser;
pub use model::AsmErrorKind;
pub use model::RelocKind;
