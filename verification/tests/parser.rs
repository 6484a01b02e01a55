//! The outer parser: accumulation until the end of the stream and error
//! propagation.

use sky_html::lexical::lexeme::{HTMLLexeme, TagState};
use sky_html::syntax::parser::{HTMLParser, HTMLParserError};

#[test]
fn test_parse_collects_tokens_until_end_of_stream() {
    let parser = HTMLParser::new("x<div>y".chars().collect());
    let tokens = parser.parse().unwrap();
    assert_eq!(tokens.len(), 3);
    assert!(matches!(tokens[0].lexeme, HTMLLexeme::Character('x')));
    match &tokens[1].lexeme {
        HTMLLexeme::Tag { name, attributes, state } => {
            assert_eq!(name, "div");
            assert!(attributes.is_empty());
            assert_eq!(*state, TagState::Opened);
        },
        other => panic!("a tag token was expected, not {:?}", other),
    }
    assert!(matches!(tokens[2].lexeme, HTMLLexeme::Character('y')));
}

#[test]
fn test_parse_of_empty_input_is_empty() {
    let parser = HTMLParser::new(Vec::<char>::new());
    let tokens = parser.parse().unwrap();
    assert!(tokens.is_empty());
}

#[test]
fn test_parse_propagates_the_first_fatal_error() {
    let parser = HTMLParser::new("ab\u{0}cd".chars().collect());
    let HTMLParserError::Lexical(error) = parser.parse().unwrap_err();
    assert!(matches!(
        error.variant,
        sky_html::lexical::error::HTMLLexicalErrorVariant::UnexpectedNullCharacter
    ));
}

#[test]
fn test_parse_does_not_include_the_end_of_stream_token() {
    let parser = HTMLParser::new("ab".chars().collect());
    let tokens = parser.parse().unwrap();
    assert_eq!(tokens.len(), 2);
    assert!(tokens.iter().all(|t| !t.is_end_of_stream()));
}

#[test]
fn test_parse_bytes() {
    let parser = HTMLParser::new(b"<p>hi</p>".to_vec());
    let tokens = parser.parse().unwrap();
    assert_eq!(tokens.len(), 4);
    assert!(matches!(&tokens[0].lexeme, HTMLLexeme::Tag { state: TagState::Opened, .. }));
    assert!(matches!(tokens[1].lexeme, HTMLLexeme::Character('h')));
    assert!(matches!(tokens[2].lexeme, HTMLLexeme::Character('i')));
    assert!(matches!(&tokens[3].lexeme, HTMLLexeme::Tag { state: TagState::Closed, .. }));
}
