//! A miniature ahead-of-time compiler for a tiny expression language.
//!
//! A program has the shape `int <name>(){ return <expr>; }`, where `<expr>`
//! is built from unsigned integer literals, the unary operators `-`, `~`
//! and `!`, and the left-associative binary operators `+`, `-`, `*` and `/`
//! with the usual precedence and explicit parenthesisation.
//!
//! The pipeline has three stages, each a pure in-memory transformation:
//! the lexer turns source text into a token sequence, the parser turns the
//! token sequence into an abstract syntax tree, and the code generator walks
//! the tree and emits textual assembly lines. Each stage carries a contract
//! that pins its result down to a mathematical description of the same stage,
//! and the machine model in `machine` proves that running the emitted
//! instructions computes the expression's value.

pub mod chars;
pub mod codegen;
pub mod lexer;
pub mod machine;
pub mod parser;
