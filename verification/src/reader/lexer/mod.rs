//! Lexers for RDF serialisations, and the tokens that they produce.

pub mod n_triples_grammar;
pub mod n_triples_lemmas;
pub mod n_triples_lexer;
pub mod rdf_lexer;
pub mod token;
