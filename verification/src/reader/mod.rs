//! Reading RDF input: the character source and the lexers built on it.

pub mod input_reader;
pub mod lexer;
