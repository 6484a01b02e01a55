//! The position tracker and the token and error building blocks.

use sky_html::lexical::error::{HTMLLexicalError, HTMLLexicalErrorVariant};
use sky_html::lexical::lexeme::{HTMLLexeme, TagState};
use sky_html::lexical::token::HTMLToken;
use sky_html::location::Location;

#[test]
fn test_location_starts_at_line_one_column_one() {
    let location = Location::new();
    assert_eq!(location.start, 0);
    assert_eq!(location.end, 0);
    assert_eq!(location.line, 1);
    assert_eq!(location.column, 1);
    assert_eq!(Location::default(), location);
}

#[test]
fn test_location_increments() {
    let mut location = Location::new();
    location.increment_column();
    assert_eq!((location.column, location.end), (2, 1));
    location.increment_column_by(4);
    assert_eq!((location.column, location.end), (6, 5));
    location.increment_line();
    assert_eq!((location.line, location.end), (2, 6));
    location.increment_line_by(2);
    assert_eq!((location.line, location.end), (4, 8));
    location.reset_column();
    assert_eq!(location.column, 1);
    location.increment_end();
    assert_eq!(location.end, 9);
    location.increment_end_by(3);
    assert_eq!(location.end, 12);
}

#[test]
fn test_location_zeroed_guards() {
    let mut location = Location { start: 0, end: 0, column: 0, line: 0 };
    location.increment_column_if_zeroed();
    location.increment_line_if_zeroed();
    assert_eq!((location.column, location.line), (1, 1));
    location.increment_column_if_zeroed();
    location.increment_line_if_zeroed();
    assert_eq!((location.column, location.line), (1, 1));
}

#[test]
fn test_location_saturates_instead_of_wrapping() {
    let mut location = Location { start: 0, end: usize::MAX, column: usize::MAX, line: 1 };
    location.increment_column();
    assert_eq!(location.column, usize::MAX);
    assert_eq!(location.end, usize::MAX);
}

#[test]
fn test_location_begin_span() {
    let mut location = Location::new();
    location.increment_column_by(7);
    location.begin_span();
    assert_eq!(location.start, 7);
    assert_eq!(location.end, 7);
}

#[test]
fn test_token_builders_and_mutators() {
    let mut token = HTMLToken::start_tag();
    assert!(token.is_opened_tag());
    assert!(!token.is_end_of_stream());
    token.add_character_to_tag_name('d');
    token.add_character_to_tag_name('l');
    token.start_empty_attribute_for_tag();
    token.add_character_to_last_attribute_name_of_tag('i');
    token.add_character_to_last_attribute_name_of_tag('d');
    token.add_character_to_last_attribute_value_of_tag('7');
    token.start_attribute_tag_with('x');
    match &token.lexeme {
        HTMLLexeme::Tag { name, attributes, state } => {
            assert_eq!(name, "dl");
            assert_eq!(
                *attributes,
                vec![
                    (String::from("id"), String::from("7")),
                    (String::from("x"), String::from("")),
                ]
            );
            assert_eq!(*state, TagState::Opened);
        },
        other => panic!("a tag token was expected, not {:?}", other),
    }

    let end = HTMLToken::end_tag();
    assert!(!end.is_opened_tag());
    let eos = HTMLToken::end_of_stream();
    assert!(eos.is_end_of_stream());
    let ch = HTMLToken::character('q');
    assert!(matches!(ch.lexeme, HTMLLexeme::Character('q')));
    let comment = HTMLToken::empty_comment();
    match &comment.lexeme {
        HTMLLexeme::Comment(text) => assert_eq!(text, ""),
        other => panic!("a comment token was expected, not {:?}", other),
    }
}

#[test]
fn test_token_with_location_and_clone() {
    let mut location = Location::new();
    location.increment_column_by(3);
    let token = HTMLToken::character('a').with_location(location);
    assert_eq!(token.location, location);
    let copy = token.clone();
    assert!(matches!(copy.lexeme, HTMLLexeme::Character('a')));
    assert_eq!(copy.location, location);
}

#[test]
fn test_error_constructors_and_with_location() {
    assert!(matches!(
        HTMLLexicalError::end_of_stream_before_tag_name().variant,
        HTMLLexicalErrorVariant::EndOfStreamBeforeTagName
    ));
    assert!(matches!(
        HTMLLexicalError::end_of_stream_in_tag().variant,
        HTMLLexicalErrorVariant::EndOfStreamInTag
    ));
    assert!(matches!(HTMLLexicalError::idk().variant, HTMLLexicalErrorVariant::Unknown));
    assert!(matches!(
        HTMLLexicalError::invalid_first_character_of_tag_name('9').variant,
        HTMLLexicalErrorVariant::InvalidFirstCharacterOfTagName { found: '9' }
    ));
    assert!(matches!(
        HTMLLexicalError::missing_end_tag_name().variant,
        HTMLLexicalErrorVariant::MissingEndTagName
    ));
    assert!(matches!(
        HTMLLexicalError::unexpected_character_in_attribute('\'').variant,
        HTMLLexicalErrorVariant::UnexpectedCharacterInAttributeName { found: '\'' }
    ));
    assert!(matches!(
        HTMLLexicalError::unexpected_equals_sign_before_attribute_name().variant,
        HTMLLexicalErrorVariant::UnexpectedEqualsSignBeforeAttributeName
    ));
    assert!(matches!(
        HTMLLexicalError::unexpected_null_character().variant,
        HTMLLexicalErrorVariant::UnexpectedNullCharacter
    ));
    assert!(matches!(
        HTMLLexicalError::unexpected_question_mark_instead_of_tag_name().variant,
        HTMLLexicalErrorVariant::UnexpectedQuestionMarkInsteadOfTagName
    ));
    assert!(matches!(
        HTMLLexicalError::missing_attribute_value().variant,
        HTMLLexicalErrorVariant::MissingAttributeValue
    ));
    assert!(matches!(
        HTMLLexicalError::unexpected_character_in_unquoted_attribute_value('`').variant,
        HTMLLexicalErrorVariant::UnexpectedCharacterInUnquotedAttributeValue { found: '`' }
    ));
    assert!(matches!(
        HTMLLexicalError::missing_whitespace_between_attributes().variant,
        HTMLLexicalErrorVariant::MissingWhitespaceBetweenAttributes
    ));

    let mut location = Location::new();
    location.increment_column();
    let error = HTMLLexicalError::idk().with_location(location);
    assert_eq!(error.location, location);
}
