//! A token: a lexeme annotated with the position it was produced at. While a
//! token is being built it is held as the tokenizer's current token and
//! mutated in place through the tag accumulation operations; once emitted it
//! is immutable.

use vstd::prelude::*;

use crate::location::Location;
use super::lexeme::{HTMLLexeme, LexemeModel, TagState};

verus! {

/// A lexeme together with the position it was produced at.
#[derive(Debug)]
pub struct HTMLToken {
    pub lexeme: HTMLLexeme,
    pub location: Location,
}

/// The mathematical shape of a token.
pub struct TokenModel {
    pub lexeme: LexemeModel,
    pub location: Location,
}

impl View for HTMLToken {
    type V = TokenModel;

    open spec fn view(&self) -> TokenModel {
        TokenModel { lexeme: self.lexeme@, location: self.location }
    }
}

impl TokenModel {
    /// A token of the given lexeme at the default position.
    pub open spec fn spec_of(lexeme: LexemeModel) -> TokenModel {
        TokenModel { lexeme, location: Location::spec_new() }
    }

    /// The same token, repositioned.
    pub open spec fn spec_at(self, location: Location) -> TokenModel {
        TokenModel { location, ..self }
    }
}

impl HTMLToken {
    /// A token holding one character of text content.
    pub fn character(ch: char) -> (r: Self)
        ensures
            r@ == TokenModel::spec_of(LexemeModel::Character(ch)),
    {
        Self { lexeme: HTMLLexeme::Character(ch), location: Location::new() }
    }

    /// A comment token with no text yet.
    pub fn empty_comment() -> (r: Self)
        ensures
            r@ == TokenModel::spec_of(LexemeModel::Comment(Seq::empty())),
    {
        Self { lexeme: HTMLLexeme::Comment(String::new()), location: Location::new() }
    }

    /// An end tag token with no name and no attributes yet.
    pub fn end_tag() -> (r: Self)
        ensures
            r@ == TokenModel::spec_of(
                LexemeModel::Tag {
                    name: Seq::empty(),
                    attributes: Seq::empty(),
                    state: TagState::Closed,
                },
            ),
    {
        let r = Self {
            lexeme: HTMLLexeme::Tag {
                state: TagState::Closed,
                name: String::new(),
                attributes: Vec::new(),
            },
            location: Location::new(),
        };
        proof {
            assert(r@.lexeme->Tag_attributes =~= Seq::<(Seq<char>, Seq<char>)>::empty());
        }
        r
    }

    /// A start tag token with no name and no attributes yet.
    pub fn start_tag() -> (r: Self)
        ensures
            r@ == TokenModel::spec_of(
                LexemeModel::Tag {
                    name: Seq::empty(),
                    attributes: Seq::empty(),
                    state: TagState::Opened,
                },
            ),
    {
        let r = Self {
            lexeme: HTMLLexeme::Tag {
                state: TagState::Opened,
                name: String::new(),
                attributes: Vec::new(),
            },
            location: Location::new(),
        };
        proof {
            assert(r@.lexeme->Tag_attributes =~= Seq::<(Seq<char>, Seq<char>)>::empty());
        }
        r
    }

    /// An end-of-stream token.
    pub fn end_of_stream() -> (r: Self)
        ensures
            r@ == TokenModel::spec_of(LexemeModel::EndOfStream),
    {
        Self { lexeme: HTMLLexeme::EndOfStream, location: Location::new() }
    }

    /// Is this token a tag that opens an element?
    pub fn is_opened_tag(&self) -> (r: bool)
        ensures
            r == (self@.lexeme is Tag && self@.lexeme->Tag_state == TagState::Opened),
    {
        match &self.lexeme {
            HTMLLexeme::Tag { state: TagState::Opened, .. } => true,
            _ => false,
        }
    }

    /// Is this the end-of-stream token?
    pub fn is_end_of_stream(&self) -> (r: bool)
        ensures
            r == (self@.lexeme is EndOfStream),
    {
        match &self.lexeme {
            HTMLLexeme::EndOfStream => true,
            _ => false,
        }
    }

    /// Appends a character to the name of the current tag.
    pub fn add_character_to_tag_name(&mut self, ch: char)
        requires
            old(self)@.lexeme is Tag,
        ensures
            final(self)@ == (TokenModel {
                lexeme: old(self)@.lexeme.with_name_char(ch),
                ..old(self)@
            }),
    {
        self.lexeme.add_character_to_tag_name(ch);
    }

    /// Appends a character to the name of the last attribute of the current
    /// tag; with no attribute started yet, nothing changes.
    pub fn add_character_to_last_attribute_name_of_tag(&mut self, ch: char)
        requires
            old(self)@.lexeme is Tag,
        ensures
            final(self)@ == (TokenModel {
                lexeme: old(self)@.lexeme.with_last_attribute_name_char(ch),
                ..old(self)@
            }),
    {
        self.lexeme.add_character_to_last_attribute_name_of_tag(ch);
    }

    /// Appends a character to the value of the last attribute of the current
    /// tag; with no attribute started yet, nothing changes.
    pub fn add_character_to_last_attribute_value_of_tag(&mut self, ch: char)
        requires
            old(self)@.lexeme is Tag,
        ensures
            final(self)@ == (TokenModel {
                lexeme: old(self)@.lexeme.with_last_attribute_value_char(ch),
                ..old(self)@
            }),
    {
        self.lexeme.add_character_to_last_attribute_value_of_tag(ch);
    }

    /// Starts a new attribute of the current tag, with an empty name and an
    /// empty value.
    pub fn start_empty_attribute_for_tag(&mut self)
        requires
            old(self)@.lexeme is Tag,
        ensures
            final(self)@ == (TokenModel {
                lexeme: old(self)@.lexeme.with_new_empty_attribute(),
                ..old(self)@
            }),
    {
        self.lexeme.start_empty_attribute_for_tag();
    }

    /// Starts a new attribute of the current tag whose name begins with the
    /// given character and whose value is empty.
    pub fn start_attribute_tag_with(&mut self, ch: char)
        requires
            old(self)@.lexeme is Tag,
        ensures
            final(self)@ == (TokenModel {
                lexeme: old(self)@.lexeme.with_new_attribute_named(ch),
                ..old(self)@
            }),
    {
        self.lexeme.start_attribute_tag_with(ch);
    }

    /// The same token, repositioned to where it was produced.
    pub fn with_location(self, location: Location) -> (r: Self)
        ensures
            r@ == self@.spec_at(location),
    {
        Self { location, ..self }
    }
}

impl Clone for HTMLToken {
    /// A deep copy with the very same view.
    fn clone(&self) -> (r: Self)
        ensures
            r@ == self@,
    {
        Self { lexeme: self.lexeme.clone(), location: self.location }
    }
}

} // verus!
