//! Lexical analysis of RDF serialisations: a character source over an input
//! held in memory, the token vocabulary, and the N-Triples tokenizer with
//! its one token of lookahead. Every function is verified against a
//! contract over sequences of characters.

pub mod error;
pub mod reader;
