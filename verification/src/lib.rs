//! A two-pass assembler and register/memory model for a small fixed-width
//! instruction set.
//!
//! The register file ([`program_environment`]) keeps sixteen machine words
//! behind 8-bit, 16-bit and 64-bit register encodings. The assembler
//! ([`assembler`]) turns source text into the byte image that is loaded at
//! offset `0x0200`, resolving labels in two passes.

pub mod assembler;
pub mod error;
pub mod instructions;
pub mod isa;
pub mod labels;
pub mod operand;
pub mod program_environment;
pub mod text;
pub mod utility;
