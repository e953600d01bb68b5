use rdf_rs::reader::lexer::token::Token;

#[test]
fn test_token_equality_is_structural() {
    assert_eq!(Token::Uri("a".to_string()), Token::Uri("a".to_string()));
    assert_ne!(Token::Uri("a".to_string()), Token::Uri("b".to_string()));
    assert_ne!(Token::Uri("a".to_string()), Token::BlankNode("a".to_string()));
    assert_ne!(Token::Literal("a".to_string()), Token::Comment("a".to_string()));
    assert_eq!(Token::TripleDelimiter, Token::TripleDelimiter);
    assert_ne!(Token::TripleDelimiter, Token::EndOfInput);
    assert_ne!(Token::PredicateListDelimiter, Token::ObjectListDelimiter);
    assert_ne!(
        Token::LiteralWithUrlDatatype("a".to_string(), "b".to_string()),
        Token::LiteralWithQNameDatatype("a".to_string(), "b".to_string())
    );
    assert_ne!(
        Token::QName("a".to_string(), "b".to_string()),
        Token::QName("a".to_string(), "c".to_string())
    );
}

#[test]
fn test_token_clone_is_equal() {
    let tokens = vec![
        Token::Comment("c".to_string()),
        Token::Literal("l".to_string()),
        Token::LiteralWithUrlDatatype("l".to_string(), "u".to_string()),
        Token::LiteralWithQNameDatatype("l".to_string(), "q".to_string()),
        Token::LiteralWithLanguageSpecification("l".to_string(), "en".to_string()),
        Token::Uri("u".to_string()),
        Token::BlankNode("b".to_string()),
        Token::TripleDelimiter,
        Token::PrefixDirective("p".to_string(), "u".to_string()),
        Token::BaseDirective("u".to_string()),
        Token::QName("p".to_string(), "n".to_string()),
        Token::Prefix("p".to_string()),
        Token::PredicateListDelimiter,
        Token::ObjectListDelimiter,
        Token::EndOfInput,
    ];
    for (i, token) in tokens.iter().enumerate() {
        assert_eq!(&token.clone(), token);
        for (j, other) in tokens.iter().enumerate() {
            assert_eq!(token == other, i == j);
        }
    }
}
