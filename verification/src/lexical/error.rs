//! The closed set of lexical error conditions. Each error carries its kind,
//! with the offending character where one is involved, and the position at
//! which it arose. Most of these conditions are recovered from locally by the
//! grammar; a few abort the current token-production call.

use vstd::prelude::*;

use crate::location::Location;

verus! {

/// A lexical error: a condition of the closed taxonomy below, at a position.
#[derive(Debug, Copy, Clone, PartialEq, Eq, Structural)]
pub struct HTMLLexicalError {
    pub variant: HTMLLexicalErrorVariant,
    pub location: Location,
}

/// The kinds of lexical errors this tokenizer can report.
#[derive(Debug, Copy, Clone, PartialEq, Eq, Structural)]
pub enum HTMLLexicalErrorVariant {
    /// The input ended where a tag name was expected: the opening `<` or
    /// `</` is handed back as text content.
    EndOfStreamBeforeTagName,
    /// The input ended inside a start or end tag (for example `<div id=`);
    /// such a tag is dropped.
    EndOfStreamInTag,
    /// The first code point after `<` or `</` is not an ASCII letter; it
    /// carries the character that was found instead.
    InvalidFirstCharacterOfTagName { found: char },
    /// A `>` stood where an end tag name was expected: the whole `</>`
    /// sequence is discarded.
    MissingEndTagName,
    /// A `"`, `'` or `<` appeared inside an attribute name; the character is
    /// nonetheless kept in the name.
    UnexpectedCharacterInAttributeName { found: char },
    /// An `=` appeared before any attribute name; it becomes the first
    /// character of the name.
    UnexpectedEqualsSignBeforeAttributeName,
    /// A `?` stood where a tag name was expected, as in an XML processing
    /// instruction; everything up to `>` is treated as a comment.
    UnexpectedQuestionMarkInsteadOfTagName,
    /// A NUL code point appeared in the input; where recovery is defined it
    /// is replaced by U+FFFD.
    UnexpectedNullCharacter,
    /// A `>` stood where an attribute value was expected; the tag is emitted
    /// with the value left empty.
    MissingAttributeValue,
    /// A `"`, `'`, `<`, `=` or `` ` `` appeared in an unquoted attribute
    /// value; the character is nonetheless kept in the value.
    UnexpectedCharacterInUnquotedAttributeValue { found: char },
    /// An attribute began right after a closing quote with no whitespace in
    /// between.
    MissingWhitespaceBetweenAttributes,
    /// A catch-all for paths the grammar does not reach.
    Unknown,
}

impl HTMLLexicalError {
    /// An error of the given kind at the default position.
    pub open spec fn spec_of(variant: HTMLLexicalErrorVariant) -> HTMLLexicalError {
        HTMLLexicalError { variant, location: Location::spec_new() }
    }

    pub fn end_of_stream_before_tag_name() -> (r: Self)
        ensures
            r == Self::spec_of(HTMLLexicalErrorVariant::EndOfStreamBeforeTagName),
    {
        Self {
            variant: HTMLLexicalErrorVariant::EndOfStreamBeforeTagName,
            location: Location::new(),
        }
    }

    pub fn end_of_stream_in_tag() -> (r: Self)
        ensures
            r == Self::spec_of(HTMLLexicalErrorVariant::EndOfStreamInTag),
    {
        Self { variant: HTMLLexicalErrorVariant::EndOfStreamInTag, location: Location::new() }
    }

    pub fn idk() -> (r: Self)
        ensures
            r == Self::spec_of(HTMLLexicalErrorVariant::Unknown),
    {
        Self { variant: HTMLLexicalErrorVariant::Unknown, location: Location::new() }
    }

    pub fn invalid_first_character_of_tag_name(found: char) -> (r: Self)
        ensures
            r == Self::spec_of(HTMLLexicalErrorVariant::InvalidFirstCharacterOfTagName { found }),
    {
        Self {
            variant: HTMLLexicalErrorVariant::InvalidFirstCharacterOfTagName { found },
            location: Location::new(),
        }
    }

    pub fn missing_end_tag_name() -> (r: Self)
        ensures
            r == Self::spec_of(HTMLLexicalErrorVariant::MissingEndTagName),
    {
        Self { variant: HTMLLexicalErrorVariant::MissingEndTagName, location: Location::new() }
    }

    pub fn unexpected_character_in_attribute(found: char) -> (r: Self)
        ensures
            r == Self::spec_of(
                HTMLLexicalErrorVariant::UnexpectedCharacterInAttributeName { found },
            ),
    {
        Self {
            variant: HTMLLexicalErrorVariant::UnexpectedCharacterInAttributeName { found },
            location: Location::new(),
        }
    }

    pub fn unexpected_equals_sign_before_attribute_name() -> (r: Self)
        ensures
            r == Self::spec_of(HTMLLexicalErrorVariant::UnexpectedEqualsSignBeforeAttributeName),
    {
        Self {
            variant: HTMLLexicalErrorVariant::UnexpectedEqualsSignBeforeAttributeName,
            location: Location::new(),
        }
    }

    pub fn unexpected_null_character() -> (r: Self)
        ensures
            r == Self::spec_of(HTMLLexicalErrorVariant::UnexpectedNullCharacter),
    {
        Self {
            variant: HTMLLexicalErrorVariant::UnexpectedNullCharacter,
            location: Location::new(),
        }
    }

    pub fn unexpected_question_mark_instead_of_tag_name() -> (r: Self)
        ensures
            r == Self::spec_of(HTMLLexicalErrorVariant::UnexpectedQuestionMarkInsteadOfTagName),
    {
        Self {
            variant: HTMLLexicalErrorVariant::UnexpectedQuestionMarkInsteadOfTagName,
            location: Location::new(),
        }
    }

    pub fn missing_attribute_value() -> (r: Self)
        ensures
            r == Self::spec_of(HTMLLexicalErrorVariant::MissingAttributeValue),
    {
        Self { variant: HTMLLexicalErrorVariant::MissingAttributeValue, location: Location::new() }
    }

    pub fn unexpected_character_in_unquoted_attribute_value(found: char) -> (r: Self)
        ensures
            r == Self::spec_of(
                HTMLLexicalErrorVariant::UnexpectedCharacterInUnquotedAttributeValue { found },
            ),
    {
        Self {
            variant: HTMLLexicalErrorVariant::UnexpectedCharacterInUnquotedAttributeValue {
                found,
            },
            location: Location::new(),
        }
    }

    pub fn missing_whitespace_between_attributes() -> (r: Self)
        ensures
            r == Self::spec_of(HTMLLexicalErrorVariant::MissingWhitespaceBetweenAttributes),
    {
        Self {
            variant: HTMLLexicalErrorVariant::MissingWhitespaceBetweenAttributes,
            location: Location::new(),
        }
    }

    /// The same error, repositioned.
    pub fn with_location(self, location: Location) -> (r: Self)
        ensures
            r == (HTMLLexicalError { location, ..self }),
    {
        Self { location, ..self }
    }
}

} // verus!
