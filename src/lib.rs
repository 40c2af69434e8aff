//! A small register machine and its two-pass assembler.
//!
//! Assembly text is parsed into instructions (`lexer`, `parser`), assembled
//! into a container of a 72-byte header, read-only data and code
//! (`assembler`, `container`), and run by the interpreter (`vm`).

pub mod assembler;
pub mod container;
pub mod instruction;
pub mod lexer;
pub mod parser;
pub mod symbols;
pub mod text;
pub mod vm;

pub use assembler::{Assembler, AssemblerError, AssemblerPhase, AssemblerSection};
pub use instruction::{Instruction, Opcode};
pub use lexer::{NoMatch, Token};
pub use parser::{AssemblerInstruction, Program};
pub use symbols::{Symbol, SymbolTable, SymbolType};
pub use vm::VM;
