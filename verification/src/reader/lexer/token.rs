//! The lexical elements of RDF serialisations.

use vstd::prelude::*;

verus! {

/// A lexical element of an RDF serialisation.
#[derive(Debug)]
pub enum Token {
    /// The body of a comment, which `#` introduces.
    Comment(String),
    /// A quoted string without annotation.
    Literal(String),
    /// A literal and the URI of its data type.
    LiteralWithUrlDatatype(String, String),
    /// A literal and the qualified name of its data type.
    LiteralWithQNameDatatype(String, String),
    /// A literal and its language tag.
    LiteralWithLanguageSpecification(String, String),
    /// An absolute URI.
    Uri(String),
    /// The identifier of a blank node.
    BlankNode(String),
    /// The end of a statement: `.`
    TripleDelimiter,
    /// A prefix and the URI that it abbreviates.
    PrefixDirective(String, String),
    /// The base URI.
    BaseDirective(String),
    /// A prefix and a local name.
    QName(String, String),
    /// The name of a prefix.
    Prefix(String),
    /// The separator of a predicate list: `;`
    PredicateListDelimiter,
    /// The separator of an object list: `,`
    ObjectListDelimiter,
    /// The input is exhausted.
    EndOfInput,
}

/// Mathematical model of a [`Token`]: the same variants, over sequences of
/// characters.
pub enum TokenView {
    Comment(Seq<char>),
    Literal(Seq<char>),
    LiteralWithUrlDatatype(Seq<char>, Seq<char>),
    LiteralWithQNameDatatype(Seq<char>, Seq<char>),
    LiteralWithLanguageSpecification(Seq<char>, Seq<char>),
    Uri(Seq<char>),
    BlankNode(Seq<char>),
    TripleDelimiter,
    PrefixDirective(Seq<char>, Seq<char>),
    BaseDirective(Seq<char>),
    QName(Seq<char>, Seq<char>),
    Prefix(Seq<char>),
    PredicateListDelimiter,
    ObjectListDelimiter,
    EndOfInput,
}

impl View for Token {
    type V = TokenView;

    open spec fn view(&self) -> TokenView {
        match self {
            Token::Comment(text) => TokenView::Comment(text@),
            Token::Literal(text) => TokenView::Literal(text@),
            Token::LiteralWithUrlDatatype(text, datatype) => TokenView::LiteralWithUrlDatatype(
                text@,
                datatype@,
            ),
            Token::LiteralWithQNameDatatype(text, datatype) => TokenView::LiteralWithQNameDatatype(
                text@,
                datatype@,
            ),
            Token::LiteralWithLanguageSpecification(text, language) =>
                TokenView::LiteralWithLanguageSpecification(text@, language@),
            Token::Uri(uri) => TokenView::Uri(uri@),
            Token::BlankNode(id) => TokenView::BlankNode(id@),
            Token::TripleDelimiter => TokenView::TripleDelimiter,
            Token::PrefixDirective(prefix, uri) => TokenView::PrefixDirective(prefix@, uri@),
            Token::BaseDirective(uri) => TokenView::BaseDirective(uri@),
            Token::QName(prefix, name) => TokenView::QName(prefix@, name@),
            Token::Prefix(name) => TokenView::Prefix(name@),
            Token::PredicateListDelimiter => TokenView::PredicateListDelimiter,
            Token::ObjectListDelimiter => TokenView::ObjectListDelimiter,
            Token::EndOfInput => TokenView::EndOfInput,
        }
    }
}

impl PartialEq for Token {
    /// Structural equality: the same variant with the same payload.
    fn eq(&self, other: &Token) -> (equal: bool) {
        match (self, other) {
            (Token::Comment(a), Token::Comment(b)) => *a == *b,
            (Token::Literal(a), Token::Literal(b)) => *a == *b,
            (Token::LiteralWithUrlDatatype(a, c), Token::LiteralWithUrlDatatype(b, d)) => {
                *a == *b && *c == *d
            },
            (Token::LiteralWithQNameDatatype(a, c), Token::LiteralWithQNameDatatype(b, d)) => {
                *a == *b && *c == *d
            },
            (
                Token::LiteralWithLanguageSpecification(a, c),
                Token::LiteralWithLanguageSpecification(b, d),
            ) => *a == *b && *c == *d,
            (Token::Uri(a), Token::Uri(b)) => *a == *b,
            (Token::BlankNode(a), Token::BlankNode(b)) => *a == *b,
            (Token::TripleDelimiter, Token::TripleDelimiter) => true,
            (Token::PrefixDirective(a, c), Token::PrefixDirective(b, d)) => *a == *b && *c == *d,
            (Token::BaseDirective(a), Token::BaseDirective(b)) => *a == *b,
            (Token::QName(a, c), Token::QName(b, d)) => *a == *b && *c == *d,
            (Token::Prefix(a), Token::Prefix(b)) => *a == *b,
            (Token::PredicateListDelimiter, Token::PredicateListDelimiter) => true,
            (Token::ObjectListDelimiter, Token::ObjectListDelimiter) => true,
            (Token::EndOfInput, Token::EndOfInput) => true,
            _ => false,
        }
    }
}

impl vstd::std_specs::cmp::PartialEqSpecImpl for Token {
    open spec fn obeys_eq_spec() -> bool {
        true
    }

    /// Two tokens are equal where their models are.
    open spec fn eq_spec(&self, other: &Token) -> bool {
        self@ == other@
    }
}

impl Clone for Token {
    /// A token of the same variant with the same payload.
    fn clone(&self) -> (token: Token)
        ensures
            token == *self,
    {
        match self {
            Token::Comment(text) => Token::Comment(text.clone()),
            Token::Literal(text) => Token::Literal(text.clone()),
            Token::LiteralWithUrlDatatype(text, datatype) => Token::LiteralWithUrlDatatype(
                text.clone(),
                datatype.clone(),
            ),
            Token::LiteralWithQNameDatatype(text, datatype) => Token::LiteralWithQNameDatatype(
                text.clone(),
                datatype.clone(),
            ),
            Token::LiteralWithLanguageSpecification(text, language) =>
                Token::LiteralWithLanguageSpecification(text.clone(), language.clone()),
            Token::Uri(uri) => Token::Uri(uri.clone()),
            Token::BlankNode(id) => Token::BlankNode(id.clone()),
            Token::TripleDelimiter => Token::TripleDelimiter,
            Token::PrefixDirective(prefix, uri) => Token::PrefixDirective(
                prefix.clone(),
                uri.clone(),
            ),
            Token::BaseDirective(uri) => Token::BaseDirective(uri.clone()),
            Token::QName(prefix, name) => Token::QName(prefix.clone(), name.clone()),
            Token::Prefix(name) => Token::Prefix(name.clone()),
            Token::PredicateListDelimiter => Token::PredicateListDelimiter,
            Token::ObjectListDelimiter => Token::ObjectListDelimiter,
            Token::EndOfInput => Token::EndOfInput,
        }
    }
}

} // verus!
