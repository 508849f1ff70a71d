//! The Mech syntax compiler: it turns a parse tree into a syntax tree, and a
//! syntax tree into blocks of dataflow constraints.
//!
//! - `lexer` and `parser`: the tokens and parse trees the compiler reads.
//! - `syntax`: syntax trees; `syntax_build`: what building one from a parse tree yields.
//! - `constraint`: constraints and blocks; `compile`: what compiling a syntax tree yields.
//! - `compiler`: the compiler itself.
//! - `encodings`, `text`, `hasher`: bytes, numerals and the hash of names.
//! - `render`: syntax trees as indented text.

pub mod lexer;
pub mod parser;
pub mod syntax;
pub mod syntax_build;
pub mod constraint;
pub mod compile;
pub mod compiler;
pub mod encodings;
pub mod text;
pub mod hasher;
pub mod render;

pub use compiler::Compiler;
pub use lexer::Token;
