//! A scanner for a small C-like scripting language: it turns source text into
//! a sequence of classified tokens, one per call, until end of input.

pub mod lexer;
pub mod token;
