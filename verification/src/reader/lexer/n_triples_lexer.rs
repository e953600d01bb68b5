//! The tokenizer for N-Triples.

use vstd::prelude::*;
use crate::error::{Error, ErrorType, ErrorView};
use crate::reader::input_reader::{
    InputReader,
    InputReaderHelper,
    chars_of_bytes,
    is_line_break,
    is_node_delimiter,
    lemma_first_match_at,
    lemma_first_match_none,
};
use crate::reader::lexer::n_triples_grammar::{
    after_node,
    lex_blank_node,
    lex_comment,
    lex_literal,
    lex_token,
    lex_uri,
    node_text,
    result_view,
};
use crate::reader::lexer::rdf_lexer::TokensFromRdf;
use crate::reader::lexer::token::{Token, TokenView};

verus! {

/// The rules that turn N-Triples syntax into tokens. Each rule expects the
/// reader at the first character of its construct and leaves it behind the
/// construct.
pub trait TokensFromNTriples: TokensFromRdf {
    /// Reads a comment. The end of the input ends a comment as a line break
    /// does.
    fn get_comment(input_reader: &mut InputReader) -> (r: Result<Token, Error>)
        ensures
            result_view(r) == lex_comment(old(input_reader)@).result,
            final(input_reader)@ == lex_comment(old(input_reader)@).rest,
    {
        Self::consume_next_char(input_reader);  // consume '#'
        let ghost body = input_reader@;
        let line_break = |c: char| -> (b: bool)
            ensures
                b == is_line_break(c),
            { InputReaderHelper::line_break(c) };
        match input_reader.get_until(line_break) {
            Ok(chars) => {
                proof {
                    lemma_first_match_at(body, |c: char| is_line_break(c), chars@.len() as int);
                }
                Self::consume_next_char(input_reader);  // consume comment delimiter
                Ok(Token::Comment(chars.to_string()))
            },
            Err(err) => {
                proof {
                    lemma_first_match_none(body, |c: char| is_line_break(c));
                }
                match err.error_type() {
                    ErrorType::EndOfInput(chars) => Ok(Token::Comment(chars.to_string())),
                    _ => Err(
                        Error::new(
                            ErrorType::InvalidReaderInput,
                            String::from_str("Invalid input while parsing comment."),
                        ),
                    ),
                }
            },
        }
    }

    /// Reads a language tag. The end of the input ends a tag as a node
    /// delimiter does, so this never fails.
    fn get_language_specification(input_reader: &mut InputReader) -> (r: Result<String, Error>)
        ensures
            r is Ok,
            r->Ok_0@ == node_text(old(input_reader)@),
            final(input_reader)@ == after_node(old(input_reader)@),
    {
        let ghost s = input_reader@;
        let node_delimiter = |c: char| -> (b: bool)
            ensures
                b == is_node_delimiter(c),
            { InputReaderHelper::node_delimiter(c) };
        match input_reader.get_until(node_delimiter) {
            Ok(chars) => {
                proof {
                    lemma_first_match_at(s, |c: char| is_node_delimiter(c), chars@.len() as int);
                }
                Ok(chars.to_string())
            },
            Err(err) => {
                proof {
                    lemma_first_match_none(s, |c: char| is_node_delimiter(c));
                }
                match err.error_type() {
                    ErrorType::EndOfInput(chars) => Ok(chars.to_string()),
                    _ => Err(
                        Error::new(
                            ErrorType::InvalidReaderInput,
                            String::from_str(
                                "Invalid input while parsing language specification.",
                            ),
                        ),
                    ),
                }
            },
        }
    }

    /// Reads a literal with its annotation, if it has one.
    fn get_literal(input_reader: &mut InputReader) -> (r: Result<Token, Error>)
        ensures
            result_view(r) == lex_literal(old(input_reader)@).result,
            final(input_reader)@ == lex_literal(old(input_reader)@).rest,
    {
        Self::consume_next_char(input_reader);  // consume '"'
        let ghost body = input_reader@;
        let quote = |c: char| -> (b: bool)
            ensures
                b == (c == '"'),
            { c == '"' };
        let literal = match input_reader.get_until(quote) {
            Ok(chars) => {
                proof {
                    lemma_first_match_at(body, |c: char| c == '"', chars@.len() as int);
                }
                chars.to_string()
            },
            Err(err) => {
                proof {
                    lemma_first_match_none(body, |c: char| c == '"');
                }
                return Err(err);
            },
        };
        Self::consume_next_char(input_reader);  // consume '"'
        assert(input_reader@ =~= body.skip(literal@.len() as int + 1));

        match input_reader.peek_next_char() {
            Some('@') => {
                Self::consume_next_char(input_reader);  // consume '@'
                match Self::get_language_specification(input_reader) {
                    Ok(language) => Ok(Token::LiteralWithLanguageSpecification(literal, language)),
                    Err(err) => Err(err),
                }
            },
            Some('^') => {
                Self::consume_next_char(input_reader);  // consume '^'
                Self::consume_next_char(input_reader);  // consume '^'

                match input_reader.peek_next_char() {
                    Some('<') => {
                        // the data type is a URI (N-Triples allows no other)
                        match Self::get_uri(input_reader) {
                            Ok(Token::Uri(datatype_uri)) => Ok(
                                Token::LiteralWithUrlDatatype(literal, datatype_uri),
                            ),
                            Ok(_) => Err(
                                Error::new(
                                    ErrorType::InvalidReaderInput,
                                    String::from_str("Invalid data type URI for literal."),
                                ),
                            ),
                            Err(err) => Err(err),
                        }
                    },
                    Some(c) => {
                        let mut message = String::from_str("Invalid data type token: ");
                        message.push(c);
                        Err(Error::new(ErrorType::InvalidReaderInput, message))
                    },
                    None => Err(
                        Error::new(ErrorType::InvalidReaderInput, String::from_str("Invalid input.")),
                    ),
                }
            },
            _ => {
                Self::consume_next_char(input_reader);  // consume the character after '"'
                Ok(Token::Literal(literal))
            },
        }
    }

    /// Reads a URI in angle brackets.
    fn get_uri(input_reader: &mut InputReader) -> (r: Result<Token, Error>)
        ensures
            result_view(r) == lex_uri(old(input_reader)@).result,
            final(input_reader)@ == lex_uri(old(input_reader)@).rest,
    {
        Self::consume_next_char(input_reader);  // consume '<'
        let ghost body = input_reader@;
        let closing = |c: char| -> (b: bool)
            ensures
                b == (c == '>'),
            { c == '>' };
        match input_reader.get_until(closing) {
            Ok(chars) => {
                proof {
                    lemma_first_match_at(body, |c: char| c == '>', chars@.len() as int);
                }
                Self::consume_next_char(input_reader);  // consume '>'
                assert(input_reader@ =~= body.skip(chars@.len() as int + 1));
                Ok(Token::Uri(chars.to_string()))
            },
            Err(err) => {
                proof {
                    lemma_first_match_none(body, |c: char| c == '>');
                }
                Err(err)
            },
        }
    }

    /// Reads the identifier of a blank node. The end of the input ends an
    /// identifier as a node delimiter does.
    fn get_blank_node(input_reader: &mut InputReader) -> (r: Result<Token, Error>)
        ensures
            result_view(r) == lex_blank_node(old(input_reader)@).result,
            final(input_reader)@ == lex_blank_node(old(input_reader)@).rest,
    {
        Self::consume_next_char(input_reader);  // consume '_'

        // the colon after the underscore
        match input_reader.get_next_char() {
            Some(':') => {},
            Some(c) => {
                let mut message = String::from_str("Invalid character while parsing blank node: ");
                message.push(c);
                return Err(Error::new(ErrorType::InvalidReaderInput, message));
            },
            None => {
                return Err(
                    Error::new(
                        ErrorType::InvalidReaderInput,
                        String::from_str("Error while parsing blank node."),
                    ),
                );
            },
        }

        let ghost body = input_reader@;
        let node_delimiter = |c: char| -> (b: bool)
            ensures
                b == is_node_delimiter(c),
            { InputReaderHelper::node_delimiter(c) };
        match input_reader.get_until(node_delimiter) {
            Ok(chars) => {
                proof {
                    lemma_first_match_at(body, |c: char| is_node_delimiter(c), chars@.len() as int);
                }
                Ok(Token::BlankNode(chars.to_string()))
            },
            Err(err) => {
                proof {
                    lemma_first_match_none(body, |c: char| is_node_delimiter(c));
                }
                match err.error_type() {
                    ErrorType::EndOfInput(chars) => Ok(Token::BlankNode(chars.to_string())),
                    _ => Err(
                        Error::new(
                            ErrorType::InvalidReaderInput,
                            String::from_str("Invalid input for lexer while parsing blank node."),
                        ),
                    ),
                }
            },
        }
    }
}

/// Produces tokens from N-Triples input, with one token of lookahead.
pub struct NTriplesLexer {
    input_reader: InputReader,
    peeked_token: Option<Token>,
}

/// Mathematical model of an [`NTriplesLexer`].
pub struct LexerView {
    /// The characters that the reader has not consumed yet.
    pub remaining: Seq<char>,
    /// The token that a peek has read and no call has consumed yet.
    pub peeked: Option<TokenView>,
}

/// The lexer that has `remaining` before it and holds no peeked token.
pub open spec fn unpeeked(remaining: Seq<char>) -> LexerView {
    LexerView { remaining, peeked: None }
}

/// The outcome of one call on a lexer.
pub struct Stepped {
    /// The token that the call returns, or the failure.
    pub result: Result<TokenView, ErrorView>,
    /// The lexer after the call.
    pub lexer: LexerView,
}

/// What `get_next_token` does: it hands out the peeked token, if there is
/// one, and reads a token from the input otherwise. The lexer holds no
/// peeked token afterwards.
pub open spec fn get_step(lexer: LexerView) -> Stepped {
    match lexer.peeked {
        Some(token) => Stepped {
            result: Ok(token),
            lexer: unpeeked(lexer.remaining),
        },
        None => Stepped {
            result: lex_token(lexer.remaining).result,
            lexer: unpeeked(lex_token(lexer.remaining).rest),
        },
    }
}

/// What `peek_next_token` does: it returns what `get_next_token` would
/// return, and keeps a token that was read as the peeked token. After a
/// failure the lexer holds no peeked token.
pub open spec fn peek_step(lexer: LexerView) -> Stepped {
    Stepped {
        result: get_step(lexer).result,
        lexer: LexerView {
            remaining: get_step(lexer).lexer.remaining,
            peeked: match get_step(lexer).result {
                Ok(token) => Some(token),
                Err(_) => None,
            },
        },
    }
}

/// The lexer after `n` calls of `get_next_token`.
pub open spec fn after_gets(lexer: LexerView, n: nat) -> LexerView
    decreases n,
{
    if n == 0 {
        lexer
    } else {
        after_gets(get_step(lexer).lexer, (n - 1) as nat)
    }
}

/// What the call of `get_next_token` returns that follows `n` earlier ones.
pub open spec fn nth_get(lexer: LexerView, n: nat) -> Result<TokenView, ErrorView> {
    get_step(after_gets(lexer, n)).result
}

impl View for NTriplesLexer {
    type V = LexerView;

    closed spec fn view(&self) -> LexerView {
        LexerView {
            remaining: self.input_reader@,
            peeked: match self.peeked_token {
                Some(token) => Some(token@),
                None => None,
            },
        }
    }
}

impl TokensFromRdf for NTriplesLexer {

}

impl TokensFromNTriples for NTriplesLexer {

}

impl NTriplesLexer {
    /// A lexer at the start of `input`, each byte of which is read as one
    /// character, with no peeked token.
    pub fn new(input: &[u8]) -> (lexer: NTriplesLexer)
        ensures
            lexer@ == unpeeked(chars_of_bytes(input@)),
    {
        NTriplesLexer { input_reader: InputReader::new(input), peeked_token: None }
    }

    /// Determines the next token of the input and consumes it.
    ///
    /// Fails on input that does not conform to N-Triples.
    pub fn get_next_token(&mut self) -> (r: Result<Token, Error>)
        ensures
            result_view(r) == get_step(old(self)@).result,
            final(self)@ == get_step(old(self)@).lexer,
    {
        match self.peeked_token.take() {
            Some(token) => {
                return Ok(token);
            },
            None => {},
        }

        match self.input_reader.peek_next_char_discard_leading_spaces() {
            Some('#') => NTriplesLexer::get_comment(&mut self.input_reader),
            Some('"') => NTriplesLexer::get_literal(&mut self.input_reader),
            Some('<') => NTriplesLexer::get_uri(&mut self.input_reader),
            Some('_') => NTriplesLexer::get_blank_node(&mut self.input_reader),
            Some('.') => {
                NTriplesLexer::consume_next_char(&mut self.input_reader);  // consume '.'
                Ok(Token::TripleDelimiter)
            },
            None => Ok(Token::EndOfInput),
            Some(c) => {
                let mut message = String::from_str("Invalid input: ");
                message.push(c);
                Err(Error::new(ErrorType::InvalidReaderInput, message))
            },
        }
    }

    /// Determines the next token of the input without consuming it: the next
    /// call of `get_next_token` returns it again.
    ///
    /// Fails on input that does not conform to N-Triples.
    pub fn peek_next_token(&mut self) -> (r: Result<Token, Error>)
        ensures
            result_view(r) == peek_step(old(self)@).result,
            final(self)@ == peek_step(old(self)@).lexer,
    {
        match &self.peeked_token {
            Some(token) => Ok(token.clone()),
            None => {
                match self.get_next_token() {
                    Ok(next) => {
                        self.peeked_token = Some(next.clone());
                        Ok(next)
                    },
                    Err(err) => Err(err),
                }
            },
        }
    }
}

} // verus!
