//! A two-stage code-generation toolchain for a minimal 16-bit computer: a
//! translator from stack-machine commands to symbolic assembly, and an
//! assembler from symbolic assembly to binary machine words.

pub mod assembler;
pub mod error;
pub mod pattern;
pub mod text;
pub mod vm_translator;
