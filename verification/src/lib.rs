//! A tiny ahead-of-time/just-in-time compiler for a small expression
//! language: integer literals, `let*`-style named bindings, unary
//! increment/decrement, binary arithmetic, and a single top-level
//! `define` form for interactive sessions.
//!
//! The compiler lowers a validated abstract syntax tree into a sequence
//! of accumulator-machine instructions (one accumulator register plus
//! stack slots addressed as negative offsets from the stack pointer).
//! The instruction sequence can be rendered as assembly text or handed
//! to an assembler for direct execution; a machine model gives the
//! instructions a semantics, and the generator is proved to agree with
//! a reference evaluator.
pub mod ast;
pub mod machine;
pub mod codegen;
pub mod semantics;
pub mod correct;
pub mod parser;
pub mod render;
pub mod session;
