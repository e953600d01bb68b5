use rdf_rs::error::{Error, ErrorType};
use rdf_rs::reader::input_reader::{InputChars, InputReader, InputReaderHelper};

#[test]
fn test_input_chars_to_string() {
    let chars = InputChars::new(vec!['a', ' ', '\u{e9}', 'z']);
    assert_eq!(chars.to_string(), "a \u{e9}z");
    assert_eq!(InputChars::new(Vec::new()).to_string(), "");
}

#[test]
fn test_input_reader_peek_does_not_consume() {
    let mut reader = InputReader::new("ab".as_bytes());

    assert_eq!(reader.peek_next_char(), Some('a'));
    assert_eq!(reader.peek_next_char(), Some('a'));
    assert_eq!(reader.get_next_char(), Some('a'));
    assert_eq!(reader.peek_next_char(), Some('b'));
    assert_eq!(reader.get_next_char(), Some('b'));
    assert_eq!(reader.peek_next_char(), None);
    assert_eq!(reader.get_next_char(), None);
    assert_eq!(reader.get_next_char(), None);
}

#[test]
fn test_input_reader_discards_leading_spaces() {
    let mut reader = InputReader::new(" \t\r\n x y".as_bytes());

    assert_eq!(reader.peek_next_char_discard_leading_spaces(), Some('x'));
    assert_eq!(reader.peek_next_char_discard_leading_spaces(), Some('x'));
    assert_eq!(reader.get_next_char(), Some('x'));
    assert_eq!(reader.peek_next_char(), Some(' '));
    assert_eq!(reader.peek_next_char_discard_leading_spaces(), Some('y'));
    assert_eq!(reader.get_next_char(), Some('y'));
    assert_eq!(reader.peek_next_char_discard_leading_spaces(), None);
}

#[test]
fn test_input_reader_get_until_leaves_delimiter() {
    let mut reader = InputReader::new("abc;def".as_bytes());

    let chars = reader.get_until(|c| c == ';').unwrap();
    assert_eq!(chars.to_string(), "abc");
    assert_eq!(reader.peek_next_char(), Some(';'));

    let none = reader.get_until(|c| c == ';').unwrap();
    assert_eq!(none.to_string(), "");
    assert_eq!(reader.get_next_char(), Some(';'));
}

#[test]
fn test_input_reader_get_until_end_of_input() {
    let mut reader = InputReader::new("abc".as_bytes());

    let error: Error = reader.get_until(|c| c == ';').unwrap_err();
    match error.error_type() {
        ErrorType::EndOfInput(chars) => assert_eq!(chars.to_string(), "abc"),
        ErrorType::InvalidReaderInput => panic!("the input ended"),
    }
    assert_eq!(error.message(), "Unexpected end of input.");
    assert_eq!(reader.peek_next_char(), None);

    let again = reader.get_until(|c| c == ';').unwrap_err();
    match again.error_type() {
        ErrorType::EndOfInput(chars) => assert_eq!(chars.to_string(), ""),
        ErrorType::InvalidReaderInput => panic!("the input ended"),
    }
}

#[test]
fn test_input_reader_helper_predicates() {
    for c in [' ', '\t', '\n', '\r'] {
        assert!(InputReaderHelper::whitespace(c));
        assert!(InputReaderHelper::node_delimiter(c));
    }
    for c in ['\n', '\r'] {
        assert!(InputReaderHelper::line_break(c));
    }
    for c in [' ', '\t', 'a', '.'] {
        assert!(!InputReaderHelper::line_break(c));
    }
    for c in ['.', '<', '"', '_'] {
        assert!(InputReaderHelper::node_delimiter(c));
        assert!(!InputReaderHelper::whitespace(c));
    }
    for c in ['a', 'Z', '0', ':', '>', '#', '@', '^', '-', '\u{a0}'] {
        assert!(!InputReaderHelper::node_delimiter(c));
        assert!(!InputReaderHelper::whitespace(c));
    }
}

#[test]
fn test_error_new_keeps_kind_and_message() {
    let error = Error::new(ErrorType::InvalidReaderInput, "wrong".to_string());
    assert!(matches!(error.error_type(), ErrorType::InvalidReaderInput));
    assert_eq!(error.message(), "wrong");

    let ended = Error::new(
        ErrorType::EndOfInput(InputChars::new(vec!['x'])),
        "ended".to_string(),
    );
    match ended.error_type() {
        ErrorType::EndOfInput(chars) => assert_eq!(chars.to_string(), "x"),
        ErrorType::InvalidReaderInput => panic!("the input ended"),
    }
    assert_eq!(ended.message(), "ended");
}
