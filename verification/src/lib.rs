//! A small ahead-of-time compiler: source text is tokenized, parsed into a
//! syntax tree whose names are already resolved to indices, and lowered to
//! NASM-style assembly text for a 64-bit ELF target.
//!
//! - [`lexer`] turns the bytes of a file into position-tagged tokens.
//! - [`parser`] turns tokens into a [`parser::Program`]; its submodule
//!   [`parser::grammar`] states what is parsed, [`parser::laws`] what holds
//!   of everything that is accepted.
//! - [`compiler`] writes the assembly text and ties the stages together.
//! - [`ezlang`] is a second, simpler compiler of its own, whose tokenizer
//!   works with regular expressions.
//! - [`text`] holds what the stages share for building text.
//!
//! Every stage stops at its first error and reports it with the place where
//! it was found.

pub mod compiler;
pub mod ezlang;
pub mod lexer;
pub mod parser;
pub mod text;
