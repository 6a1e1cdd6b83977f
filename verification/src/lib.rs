//! A front end and a single-pass code generator for a small Lua-family
//! language.
//!
//! [`parser::Parser`] builds the syntax tree of [`parser::types`] from the
//! tokens of [`tokens`], and [`compiler::CodeGen`] lowers the tree into
//! register-based bytecode: a tree of function prototypes with their
//! instructions, constants and upvalue counts.
//!
//! Both are verified against models of what they compute: [`parser::model`]
//! for the parser, [`compiler::model`] for the generator.

pub mod tokens;
pub mod parser;
pub mod compiler;
