//! Reconstruction of Haxe-like source structures from HashLink bytecode.
//!
//! The crate walks a function's opcode stream once, propagating symbolic
//! expressions through the registers, recognising multi-opcode idioms
//! (constructor calls, anonymous structure literals) and rebuilding
//! structured control flow (if / else, while, switch, try) from jump
//! offsets.  The result is an abstract syntax tree ready for rendering.

pub mod ast;
pub mod decompiler;
pub mod scopes;
pub mod types;
