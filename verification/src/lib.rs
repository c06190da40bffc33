//! A small expression-oriented language: lexer, parser and tree-walking
//! evaluator over a dynamically typed value system (numbers, booleans,
//! strings, characters) with a lexically scoped variable environment.
//!
//! Numbers are IEEE-754 double-precision values, carried everywhere as their
//! 64-bit encodings; the rounding arithmetic on those encodings, and the
//! decimal reading and writing of non-integral values, are delegated to the
//! `rustc_apfloat` software implementation behind a small set of trusted
//! wrappers, while everything around them is verified.

pub mod double;
pub mod tokens;
pub mod text;
pub mod lexer;
pub mod parser;
pub mod object;
pub mod context;
pub mod interpreter;
pub mod laws;
