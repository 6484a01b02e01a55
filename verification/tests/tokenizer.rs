//! The tokenizer: the token stream produced for representative inputs, the
//! recovered and fatal error conditions, and the positions stamped on tokens.

use sky_html::lexical::error::HTMLLexicalErrorVariant;
use sky_html::lexical::lexeme::{HTMLLexeme, TagState};
use sky_html::lexical::token::HTMLToken;
use sky_html::lexical::tokenizer::{HTMLTokenizer, HTMLTokenizerState};

fn chars_tokenizer(input: &str) -> HTMLTokenizer<char> {
    HTMLTokenizer::new(input.chars().collect())
}

fn expect_tag(token: &HTMLToken) -> (String, Vec<(String, String)>, TagState) {
    match &token.lexeme {
        HTMLLexeme::Tag { name, attributes, state } => {
            (name.clone(), attributes.clone(), *state)
        },
        other => panic!("a tag token was expected, not {:?}", other),
    }
}

#[test]
fn test_text_only_input_is_one_character_token_per_unit() {
    let mut tokenizer = chars_tokenizer("ab");

    let (tokens, errors) = tokenizer.consume_next().unwrap();
    assert_eq!(tokens.len(), 1);
    assert!(matches!(tokens[0].lexeme, HTMLLexeme::Character('a')));
    assert_eq!(tokens[0].location.start, 0);
    assert_eq!(tokens[0].location.end, 1);
    assert!(errors.is_empty());

    let (tokens, errors) = tokenizer.consume_next().unwrap();
    assert!(matches!(tokens[0].lexeme, HTMLLexeme::Character('b')));
    assert_eq!(tokens[0].location.start, 1);
    assert_eq!(tokens[0].location.end, 2);
    assert!(errors.is_empty());

    let (tokens, errors) = tokenizer.consume_next().unwrap();
    assert!(tokens[0].is_end_of_stream());
    assert_eq!(tokens[0].location.start, 2);
    assert_eq!(tokens[0].location.end, 2);
    assert!(errors.is_empty());
}

#[test]
fn test_open_tag() {
    let mut tokenizer = chars_tokenizer("<div>");
    let (tokens, errors) = tokenizer.consume_next().unwrap();
    assert_eq!(tokens.len(), 1);
    let (name, attributes, state) = expect_tag(&tokens[0]);
    assert_eq!(name, "div");
    assert!(attributes.is_empty());
    assert_eq!(state, TagState::Opened);
    assert!(errors.is_empty());

    let (tokens, _) = tokenizer.consume_next().unwrap();
    assert!(tokens[0].is_end_of_stream());
}

#[test]
fn test_end_tag() {
    let mut tokenizer = chars_tokenizer("</div>");
    let (tokens, errors) = tokenizer.consume_next().unwrap();
    assert_eq!(tokens.len(), 1);
    let (name, attributes, state) = expect_tag(&tokens[0]);
    assert_eq!(name, "div");
    assert!(attributes.is_empty());
    assert_eq!(state, TagState::Closed);
    assert!(errors.is_empty());
}

#[test]
fn test_tag_name_is_lowercased_and_unquoted_value_kept() {
    let mut tokenizer = chars_tokenizer("<DIV id=x>");
    let (tokens, errors) = tokenizer.consume_next().unwrap();
    let (name, attributes, state) = expect_tag(&tokens[0]);
    assert_eq!(name, "div");
    assert_eq!(attributes, vec![(String::from("id"), String::from("x"))]);
    assert_eq!(state, TagState::Opened);
    assert!(errors.is_empty());
}

#[test]
fn test_attribute_name_lowercased_value_case_kept() {
    let mut tokenizer = chars_tokenizer("<a ID=X>");
    let (tokens, _) = tokenizer.consume_next().unwrap();
    let (_, attributes, _) = expect_tag(&tokens[0]);
    assert_eq!(attributes, vec![(String::from("id"), String::from("X"))]);
}

#[test]
fn test_quoted_attribute_value_accumulates_literally() {
    let mut tokenizer = chars_tokenizer("<a href=\"a&b\">");
    let (tokens, errors) = tokenizer.consume_next().unwrap();
    let (name, attributes, _) = expect_tag(&tokens[0]);
    assert_eq!(name, "a");
    assert_eq!(attributes, vec![(String::from("href"), String::from("a&b"))]);
    assert!(errors.is_empty());
}

#[test]
fn test_single_quoted_attribute_value() {
    let mut tokenizer = chars_tokenizer("<a b='c d'>");
    let (tokens, _) = tokenizer.consume_next().unwrap();
    let (_, attributes, _) = expect_tag(&tokens[0]);
    assert_eq!(attributes, vec![(String::from("b"), String::from("c d"))]);
}

#[test]
fn test_duplicate_attributes_are_kept_in_order() {
    let mut tokenizer = chars_tokenizer("<a x=1 x=2>");
    let (tokens, _) = tokenizer.consume_next().unwrap();
    let (_, attributes, _) = expect_tag(&tokens[0]);
    assert_eq!(
        attributes,
        vec![
            (String::from("x"), String::from("1")),
            (String::from("x"), String::from("2")),
        ]
    );
}

#[test]
fn test_input_ending_mid_tag_reports_end_of_stream_in_tag() {
    let mut tokenizer = chars_tokenizer("<div id=");
    let (tokens, errors) = tokenizer.consume_next().unwrap();
    assert_eq!(tokens.len(), 1);
    assert!(tokens[0].is_end_of_stream());
    assert_eq!(errors.len(), 1);
    assert!(matches!(errors[0].variant, HTMLLexicalErrorVariant::EndOfStreamInTag));
}

#[test]
fn test_self_closing_slash_is_not_modelled() {
    // The self-closing state has no handler in this subset: the tag before
    // the slash is dropped and the call reports the end of the stream.
    let mut tokenizer = chars_tokenizer("<br/>");
    let (tokens, _) = tokenizer.consume_next().unwrap();
    assert!(tokens[0].is_end_of_stream());
}

#[test]
fn test_lone_open_angle_at_end_of_stream() {
    let mut tokenizer = chars_tokenizer("<");
    let (tokens, errors) = tokenizer.consume_next().unwrap();
    assert_eq!(tokens.len(), 1);
    assert!(matches!(tokens[0].lexeme, HTMLLexeme::Character('<')));
    assert_eq!(errors.len(), 1);
    assert!(matches!(
        errors[0].variant,
        HTMLLexicalErrorVariant::EndOfStreamBeforeTagName
    ));
}

#[test]
fn test_end_tag_open_at_end_of_stream_emits_three_tokens() {
    let mut tokenizer = chars_tokenizer("</");
    let (tokens, errors) = tokenizer.consume_next().unwrap();
    assert_eq!(tokens.len(), 3);
    assert!(matches!(tokens[0].lexeme, HTMLLexeme::Character('<')));
    assert!(matches!(tokens[1].lexeme, HTMLLexeme::Character('/')));
    assert!(tokens[2].is_end_of_stream());
    assert!(matches!(
        errors[0].variant,
        HTMLLexicalErrorVariant::EndOfStreamBeforeTagName
    ));
}

#[test]
fn test_invalid_first_character_of_tag_name() {
    let mut tokenizer = chars_tokenizer("<1>");
    let (tokens, errors) = tokenizer.consume_next().unwrap();
    assert!(matches!(tokens[0].lexeme, HTMLLexeme::Character('<')));
    assert!(matches!(
        errors[0].variant,
        HTMLLexicalErrorVariant::InvalidFirstCharacterOfTagName { found: '1' }
    ));
    // The offending unit is reconsumed as ordinary text.
    let (tokens, _) = tokenizer.consume_next().unwrap();
    assert!(matches!(tokens[0].lexeme, HTMLLexeme::Character('1')));
}

#[test]
fn test_missing_end_tag_name_is_fatal() {
    let mut tokenizer = chars_tokenizer("</>");
    let error = tokenizer.consume_next().unwrap_err();
    assert!(matches!(error.variant, HTMLLexicalErrorVariant::MissingEndTagName));
    // The whole `</>` sequence is discarded; tokenization can go on.
    let (tokens, _) = tokenizer.consume_next().unwrap();
    assert!(tokens[0].is_end_of_stream());
}

#[test]
fn test_nul_in_data_is_fatal() {
    let mut tokenizer = chars_tokenizer("\u{0}");
    let error = tokenizer.consume_next().unwrap_err();
    assert!(matches!(error.variant, HTMLLexicalErrorVariant::UnexpectedNullCharacter));
}

#[test]
fn test_nul_in_tag_name_becomes_replacement_character() {
    let mut tokenizer = chars_tokenizer("<a\u{0}b>");
    let (tokens, errors) = tokenizer.consume_next().unwrap();
    let (name, _, _) = expect_tag(&tokens[0]);
    assert_eq!(name, "a\u{FFFD}b");
    assert!(matches!(errors[0].variant, HTMLLexicalErrorVariant::UnexpectedNullCharacter));
}

#[test]
fn test_question_mark_instead_of_tag_name_is_fatal() {
    let mut tokenizer = chars_tokenizer("<?xml>");
    let error = tokenizer.consume_next().unwrap_err();
    assert!(matches!(
        error.variant,
        HTMLLexicalErrorVariant::UnexpectedQuestionMarkInsteadOfTagName
    ));
}

#[test]
fn test_equals_sign_before_attribute_name_starts_the_name() {
    let mut tokenizer = chars_tokenizer("<a =b>");
    let (tokens, errors) = tokenizer.consume_next().unwrap();
    let (_, attributes, _) = expect_tag(&tokens[0]);
    assert_eq!(attributes, vec![(String::from("=b"), String::from(""))]);
    assert!(matches!(
        errors[0].variant,
        HTMLLexicalErrorVariant::UnexpectedEqualsSignBeforeAttributeName
    ));
}

#[test]
fn test_quote_in_attribute_name_is_kept_with_error() {
    let mut tokenizer = chars_tokenizer("<a b\"c>");
    let (tokens, errors) = tokenizer.consume_next().unwrap();
    let (_, attributes, _) = expect_tag(&tokens[0]);
    assert_eq!(attributes, vec![(String::from("b\"c"), String::from(""))]);
    assert!(matches!(
        errors[0].variant,
        HTMLLexicalErrorVariant::UnexpectedCharacterInAttributeName { found: '"' }
    ));
}

#[test]
fn test_missing_attribute_value() {
    let mut tokenizer = chars_tokenizer("<a b=>");
    let (tokens, errors) = tokenizer.consume_next().unwrap();
    let (_, attributes, _) = expect_tag(&tokens[0]);
    assert_eq!(attributes, vec![(String::from("b"), String::from(""))]);
    assert!(matches!(errors[0].variant, HTMLLexicalErrorVariant::MissingAttributeValue));
}

#[test]
fn test_equals_in_unquoted_value_is_kept_with_error() {
    let mut tokenizer = chars_tokenizer("<a b=c=d>");
    let (tokens, errors) = tokenizer.consume_next().unwrap();
    let (_, attributes, _) = expect_tag(&tokens[0]);
    assert_eq!(attributes, vec![(String::from("b"), String::from("c=d"))]);
    assert!(matches!(
        errors[0].variant,
        HTMLLexicalErrorVariant::UnexpectedCharacterInUnquotedAttributeValue { found: '=' }
    ));
}

#[test]
fn test_missing_whitespace_between_attributes_is_fatal() {
    let mut tokenizer = chars_tokenizer("<a b='c'd>");
    let error = tokenizer.consume_next().unwrap_err();
    assert!(matches!(
        error.variant,
        HTMLLexicalErrorVariant::MissingWhitespaceBetweenAttributes
    ));
}

#[test]
fn test_ampersand_in_data_is_passed_over() {
    // Character references are unsupported: in the data state `&` yields no
    // token of its own.
    let mut tokenizer = chars_tokenizer("a&b");
    let (tokens, _) = tokenizer.consume_next().unwrap();
    assert!(matches!(tokens[0].lexeme, HTMLLexeme::Character('a')));
    let (tokens, _) = tokenizer.consume_next().unwrap();
    assert!(matches!(tokens[0].lexeme, HTMLLexeme::Character('b')));
}

#[test]
fn test_byte_input_tokenizes_like_characters() {
    let mut tokenizer: HTMLTokenizer<u8> = HTMLTokenizer::new(b"<div id=x>".to_vec());
    let (tokens, errors) = tokenizer.consume_next().unwrap();
    let (name, attributes, state) = expect_tag(&tokens[0]);
    assert_eq!(name, "div");
    assert_eq!(attributes, vec![(String::from("id"), String::from("x"))]);
    assert_eq!(state, TagState::Opened);
    assert!(errors.is_empty());
}

#[test]
fn test_newline_advances_line_and_resets_column() {
    let mut tokenizer = chars_tokenizer("\na");
    let (tokens, _) = tokenizer.consume_next().unwrap();
    assert_eq!(tokens[0].location.line, 2);
    assert_eq!(tokens[0].location.column, 1);
    let (tokens, _) = tokenizer.consume_next().unwrap();
    assert_eq!(tokens[0].location.line, 2);
    assert_eq!(tokens[0].location.column, 2);
}

#[test]
fn test_tab_advances_column_by_four() {
    let mut tokenizer = chars_tokenizer("\t");
    let (tokens, _) = tokenizer.consume_next().unwrap();
    assert_eq!(tokens[0].location.column, 5);
    assert_eq!(tokens[0].location.end, 4);
}

#[test]
fn test_token_spans_are_monotonic() {
    let mut tokenizer = chars_tokenizer("xy<div>z");
    let mut previous_end = 0;
    loop {
        let (tokens, _) = tokenizer.consume_next().unwrap();
        for token in &tokens {
            assert!(token.location.start >= previous_end);
            previous_end = token.location.end;
        }
        if tokens.iter().any(|t| t.is_end_of_stream()) {
            break;
        }
    }
}

#[test]
fn test_reconsume_rolls_one_unit_back() {
    let mut tokenizer = chars_tokenizer("ab");
    let (tokens, _) = tokenizer.consume_next().unwrap();
    assert!(matches!(tokens[0].lexeme, HTMLLexeme::Character('a')));
    // Roll `a` back: it is examined again under the data state.
    tokenizer.reconsume(HTMLTokenizerState::Data);
    let (tokens, _) = tokenizer.consume_next().unwrap();
    assert!(matches!(tokens[0].lexeme, HTMLLexeme::Character('a')));
}

#[test]
fn test_two_quoted_attributes_separated_by_whitespace() {
    let mut tokenizer = chars_tokenizer("<a b='c' d=\"e\">");
    let (tokens, errors) = tokenizer.consume_next().unwrap();
    let (_, attributes, _) = expect_tag(&tokens[0]);
    assert_eq!(
        attributes,
        vec![
            (String::from("b"), String::from("c")),
            (String::from("d"), String::from("e")),
        ]
    );
    assert!(errors.is_empty());
}

#[test]
fn test_whitespace_inside_tag_is_skipped() {
    let mut tokenizer = chars_tokenizer("<a  b = c >");
    let (tokens, _) = tokenizer.consume_next().unwrap();
    let (_, attributes, _) = expect_tag(&tokens[0]);
    assert_eq!(attributes, vec![(String::from("b"), String::from("c"))]);
}

#[test]
fn test_end_tag_followed_by_text() {
    let mut tokenizer = chars_tokenizer("</b>x");
    let (tokens, _) = tokenizer.consume_next().unwrap();
    let (name, _, state) = expect_tag(&tokens[0]);
    assert_eq!(name, "b");
    assert_eq!(state, TagState::Closed);
    let (tokens, _) = tokenizer.consume_next().unwrap();
    assert!(matches!(tokens[0].lexeme, HTMLLexeme::Character('x')));
}
