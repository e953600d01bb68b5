//! The lexical grammar of N-Triples, as functions from the characters that
//! are left of the input to the token read and the characters left after it.

use vstd::prelude::*;
use crate::error::{Error, ErrorView, end_of_input, invalid_input};
use crate::reader::input_reader::{
    drop_char,
    first_char,
    first_match,
    is_line_break,
    is_node_delimiter,
    skip_whitespace,
};
use crate::reader::lexer::token::{Token, TokenView};

verus! {

/// The outcome of one lexing step.
pub struct Lexed {
    /// The token that was read, or the failure.
    pub result: Result<TokenView, ErrorView>,
    /// The characters that are left of the input.
    pub rest: Seq<char>,
}

/// The model of what a lexing step returns.
pub open spec fn result_view(r: Result<Token, Error>) -> Result<TokenView, ErrorView> {
    match r {
        Ok(token) => Ok(token@),
        Err(error) => Err(error@),
    }
}

/// A comment: `#`, then the text up to the end of the line or of the input.
/// The character that ends the line is consumed.
pub open spec fn lex_comment(s: Seq<char>) -> Lexed {
    let body = drop_char(s);
    let n = first_match(body, |c: char| is_line_break(c)) as int;
    Lexed { result: Ok(TokenView::Comment(body.take(n))), rest: drop_char(body.skip(n)) }
}

/// The text of a language tag, or of the identifier of a blank node: the
/// characters up to the next node delimiter or the end of the input.
pub open spec fn node_text(s: Seq<char>) -> Seq<char> {
    s.take(first_match(s, |c: char| is_node_delimiter(c)) as int)
}

/// What is left after such a text: the input from its first node delimiter
/// on.
pub open spec fn after_node(s: Seq<char>) -> Seq<char> {
    s.skip(first_match(s, |c: char| is_node_delimiter(c)) as int)
}

/// A URI: `<`, the text up to the next `>`, and that `>`. Without a `>` the
/// whole input is consumed and the step fails.
pub open spec fn lex_uri(s: Seq<char>) -> Lexed {
    let body = drop_char(s);
    let n = first_match(body, |c: char| c == '>') as int;
    if n < body.len() {
        Lexed { result: Ok(TokenView::Uri(body.take(n))), rest: body.skip(n + 1) }
    } else {
        Lexed { result: Err(end_of_input(body)), rest: Seq::empty() }
    }
}

/// A blank node: `_`, `:`, then the identifier up to the next node delimiter
/// or the end of the input. Anything but `:` after the first character is
/// consumed and reported.
pub open spec fn lex_blank_node(s: Seq<char>) -> Lexed {
    let after = drop_char(s);
    match first_char(after) {
        Some(c) => if c == ':' {
            let body = drop_char(after);
            Lexed { result: Ok(TokenView::BlankNode(node_text(body))), rest: after_node(body) }
        } else {
            Lexed {
                result: Err(
                    invalid_input("Invalid character while parsing blank node: "@.push(c)),
                ),
                rest: drop_char(after),
            }
        },
        None => Lexed {
            result: Err(invalid_input("Error while parsing blank node."@)),
            rest: after,
        },
    }
}

/// The literal `text` with the data type that `uri` holds, where `uri` is the
/// outcome of reading a URI.
pub open spec fn with_datatype(text: Seq<char>, uri: Lexed) -> Lexed {
    Lexed {
        result: match uri.result {
            Ok(TokenView::Uri(datatype)) => Ok(TokenView::LiteralWithUrlDatatype(text, datatype)),
            Ok(_) => Err(invalid_input("Invalid data type URI for literal."@)),
            Err(error) => Err(error),
        },
        rest: uri.rest,
    }
}

/// What may follow the closing quote of the literal `text`: `@` and a
/// language tag; `^`, one more character and a URI in angle brackets; or
/// none of these, in which case one more character is consumed.
pub open spec fn lex_annotation(text: Seq<char>, s: Seq<char>) -> Lexed {
    if first_char(s) == Some('@') {
        let tag = drop_char(s);
        Lexed {
            result: Ok(TokenView::LiteralWithLanguageSpecification(text, node_text(tag))),
            rest: after_node(tag),
        }
    } else if first_char(s) == Some('^') {
        let datatype = drop_char(drop_char(s));
        match first_char(datatype) {
            Some(c) => if c == '<' {
                with_datatype(text, lex_uri(datatype))
            } else {
                Lexed {
                    result: Err(invalid_input("Invalid data type token: "@.push(c))),
                    rest: datatype,
                }
            },
            None => Lexed { result: Err(invalid_input("Invalid input."@)), rest: datatype },
        }
    } else {
        Lexed { result: Ok(TokenView::Literal(text)), rest: drop_char(s) }
    }
}

/// A literal: `"`, the text up to the next `"`, that `"`, and what follows
/// it. Without a closing `"` the whole input is consumed and the step fails.
pub open spec fn lex_literal(s: Seq<char>) -> Lexed {
    let body = drop_char(s);
    let n = first_match(body, |c: char| c == '"') as int;
    if n < body.len() {
        lex_annotation(body.take(n), body.skip(n + 1))
    } else {
        Lexed { result: Err(end_of_input(body)), rest: Seq::empty() }
    }
}

/// One token: leading whitespace is consumed, and the first character after
/// it selects the rule. A character that begins no token stays in the input
/// and is reported.
pub open spec fn lex_token(s: Seq<char>) -> Lexed {
    let t = skip_whitespace(s);
    match first_char(t) {
        Some(c) => if c == '#' {
            lex_comment(t)
        } else if c == '"' {
            lex_literal(t)
        } else if c == '<' {
            lex_uri(t)
        } else if c == '_' {
            lex_blank_node(t)
        } else if c == '.' {
            Lexed { result: Ok(TokenView::TripleDelimiter), rest: drop_char(t) }
        } else {
            Lexed { result: Err(invalid_input("Invalid input: "@.push(c))), rest: t }
        },
        None => Lexed { result: Ok(TokenView::EndOfInput), rest: t },
    }
}

} // verus!
