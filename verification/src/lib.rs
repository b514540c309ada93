//! Front end of a small statically typed, C-like language: a tokenizer, a
//! parser by recursive descent, and the syntax tree that they produce.
//!
//! Source text is split into tokens by [`lexer::Lexer`]; the token stream is
//! turned into an [`ast::Program`] and a list of diagnostics by
//! [`parser::Parser`]. Neither stops at an error: a character that begins no
//! token and a token that fits no production are recorded, and the work
//! goes on.
//!
//! Every function states what it returns over a mathematical model: the
//! tokens of a line are those of [`lexer::scan`], the parse of a stream is
//! that of [`grammar::program`], and the value of a tree is its model in
//! [`model`]. What the grammar accepts is defined in [`derivation`];
//! [`laws`] proves that the parser finds the tree of every accepted
//! program, and [`declared`] that it makes one declaration for each `fn` of
//! any stream.

pub mod ast;
pub mod chars;
pub mod declared;
pub mod derivation;
pub mod diagnostic;
pub mod grammar;
pub mod laws;
pub mod lexer;
pub mod model;
pub mod parser;
pub mod productions;
pub mod text;
pub mod token;
