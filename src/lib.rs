//! Back end of a small compiler for a PHP-like language: a bytecode generator
//! that linearises a syntax tree into stack-machine instructions, and a
//! lowering pass that turns those instructions into x86-64 assembly text.

pub mod ast;
pub mod text;
pub mod error;
pub mod codegen;
pub mod asmgen;
pub mod generation_laws;
pub mod lowering_laws;
