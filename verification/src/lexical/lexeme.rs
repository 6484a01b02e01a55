//! The payload of a token: a comment, a tag with its name and ordered
//! attribute list, a single character, or the end of the stream. Only the tag
//! variant is mutable while a token is being built, through the closed set of
//! accumulation operations below; every one of them demands that the payload
//! is currently a tag.

use vstd::prelude::*;

use crate::strbuf::push_char;

verus! {

/// Whether a tag was opened (`<div>`), closed (`</div>`), or self-closed
/// (`<input />`).
#[derive(Debug, Copy, Clone, PartialEq, Eq, Structural)]
pub enum TagState {
    Opened,
    Closed,
    SelfClosed,
}

/// The semantic payload of a token, independent of position.
#[derive(Debug)]
pub enum HTMLLexeme {
    /// A comment, holding its text.
    Comment(String),
    /// A tag: its name, its attributes as an ordered list of name/value
    /// pairs (duplicates are kept), and whether it opens, closes, or
    /// self-closes.
    Tag { name: String, attributes: Vec<(String, String)>, state: TagState },
    /// One character of text content.
    Character(char),
    /// The end of the input.
    EndOfStream,
}

/// The mathematical shape of a lexeme: strings as character sequences.
pub enum LexemeModel {
    Comment(Seq<char>),
    Tag { name: Seq<char>, attributes: Seq<(Seq<char>, Seq<char>)>, state: TagState },
    Character(char),
    EndOfStream,
}

/// The attribute list at the level of character sequences.
pub open spec fn attrs_view(attributes: Seq<(String, String)>) -> Seq<(Seq<char>, Seq<char>)> {
    attributes.map_values(|p: (String, String)| (p.0@, p.1@))
}

impl View for HTMLLexeme {
    type V = LexemeModel;

    open spec fn view(&self) -> LexemeModel {
        match self {
            HTMLLexeme::Comment(text) => LexemeModel::Comment(text@),
            HTMLLexeme::Tag { name, attributes, state } => LexemeModel::Tag {
                name: name@,
                attributes: attrs_view(attributes@),
                state: *state,
            },
            HTMLLexeme::Character(ch) => LexemeModel::Character(*ch),
            HTMLLexeme::EndOfStream => LexemeModel::EndOfStream,
        }
    }
}

impl LexemeModel {
    /// The model after appending one character to the tag name. Anything
    /// other than a tag is left unchanged.
    pub open spec fn with_name_char(self, ch: char) -> LexemeModel {
        match self {
            LexemeModel::Tag { name, attributes, state } => LexemeModel::Tag {
                name: name.push(ch),
                attributes,
                state,
            },
            other => other,
        }
    }

    /// The model after appending one character to the name of the last
    /// attribute. With no attribute yet, and on anything other than a tag,
    /// nothing changes.
    pub open spec fn with_last_attribute_name_char(self, ch: char) -> LexemeModel {
        match self {
            LexemeModel::Tag { name, attributes, state } => {
                if attributes.len() == 0 {
                    LexemeModel::Tag { name, attributes, state }
                } else {
                    let last = attributes.last();
                    LexemeModel::Tag {
                        name,
                        attributes: attributes.update(
                            attributes.len() - 1,
                            (last.0.push(ch), last.1),
                        ),
                        state,
                    }
                }
            },
            other => other,
        }
    }

    /// The model after appending one character to the value of the last
    /// attribute. With no attribute yet, and on anything other than a tag,
    /// nothing changes.
    pub open spec fn with_last_attribute_value_char(self, ch: char) -> LexemeModel {
        match self {
            LexemeModel::Tag { name, attributes, state } => {
                if attributes.len() == 0 {
                    LexemeModel::Tag { name, attributes, state }
                } else {
                    let last = attributes.last();
                    LexemeModel::Tag {
                        name,
                        attributes: attributes.update(
                            attributes.len() - 1,
                            (last.0, last.1.push(ch)),
                        ),
                        state,
                    }
                }
            },
            other => other,
        }
    }

    /// The model after starting a new attribute with an empty name and value.
    /// Anything other than a tag is left unchanged.
    pub open spec fn with_new_empty_attribute(self) -> LexemeModel {
        match self {
            LexemeModel::Tag { name, attributes, state } => LexemeModel::Tag {
                name,
                attributes: attributes.push((Seq::empty(), Seq::empty())),
                state,
            },
            other => other,
        }
    }

    /// The model after starting a new attribute whose name begins with `ch`
    /// and whose value is empty. Anything other than a tag is left unchanged.
    pub open spec fn with_new_attribute_named(self, ch: char) -> LexemeModel {
        match self {
            LexemeModel::Tag { name, attributes, state } => LexemeModel::Tag {
                name,
                attributes: attributes.push((seq![ch], Seq::empty())),
                state,
            },
            other => other,
        }
    }
}

impl HTMLLexeme {
    /// Appends a character to the name of the current tag.
    pub fn add_character_to_tag_name(&mut self, ch: char)
        requires
            old(self)@ is Tag,
        ensures
            final(self)@ == old(self)@.with_name_char(ch),
    {
        let mut taken = HTMLLexeme::EndOfStream;
        core::mem::swap(self, &mut taken);
        match taken {
            HTMLLexeme::Tag { mut name, attributes, state } => {
                push_char(&mut name, ch);
                *self = HTMLLexeme::Tag { name, attributes, state };
            },
            other => {
                *self = other;
            },
        }
    }

    /// Appends a character to the name of the last attribute of the current
    /// tag; with no attribute started yet, nothing changes.
    pub fn add_character_to_last_attribute_name_of_tag(&mut self, ch: char)
        requires
            old(self)@ is Tag,
        ensures
            final(self)@ == old(self)@.with_last_attribute_name_char(ch),
    {
        let mut taken = HTMLLexeme::EndOfStream;
        core::mem::swap(self, &mut taken);
        match taken {
            HTMLLexeme::Tag { name, mut attributes, state } => {
                if let Option::Some(mut last_attribute) = attributes.pop() {
                    push_char(&mut last_attribute.0, ch);
                    attributes.push(last_attribute);
                }
                *self = HTMLLexeme::Tag { name, attributes, state };
                proof {
                    let pre = old(self)@->Tag_attributes;
                    if pre.len() > 0 {
                        assert(final(self)@->Tag_attributes =~= pre.update(
                            pre.len() - 1,
                            (pre.last().0.push(ch), pre.last().1),
                        ));
                    } else {
                        assert(final(self)@->Tag_attributes =~= pre);
                    }
                }
            },
            other => {
                *self = other;
            },
        }
    }

    /// Appends a character to the value of the last attribute of the current
    /// tag; with no attribute started yet, nothing changes.
    pub fn add_character_to_last_attribute_value_of_tag(&mut self, ch: char)
        requires
            old(self)@ is Tag,
        ensures
            final(self)@ == old(self)@.with_last_attribute_value_char(ch),
    {
        let mut taken = HTMLLexeme::EndOfStream;
        core::mem::swap(self, &mut taken);
        match taken {
            HTMLLexeme::Tag { name, mut attributes, state } => {
                if let Option::Some(mut last_attribute) = attributes.pop() {
                    push_char(&mut last_attribute.1, ch);
                    attributes.push(last_attribute);
                }
                *self = HTMLLexeme::Tag { name, attributes, state };
                proof {
                    let pre = old(self)@->Tag_attributes;
                    if pre.len() > 0 {
                        assert(final(self)@->Tag_attributes =~= pre.update(
                            pre.len() - 1,
                            (pre.last().0, pre.last().1.push(ch)),
                        ));
                    } else {
                        assert(final(self)@->Tag_attributes =~= pre);
                    }
                }
            },
            other => {
                *self = other;
            },
        }
    }

    /// Starts a new attribute of the current tag, with an empty name and an
    /// empty value.
    pub fn start_empty_attribute_for_tag(&mut self)
        requires
            old(self)@ is Tag,
        ensures
            final(self)@ == old(self)@.with_new_empty_attribute(),
    {
        let mut taken = HTMLLexeme::EndOfStream;
        core::mem::swap(self, &mut taken);
        match taken {
            HTMLLexeme::Tag { name, mut attributes, state } => {
                attributes.push((String::new(), String::new()));
                *self = HTMLLexeme::Tag { name, attributes, state };
                proof {
                    assert(final(self)@->Tag_attributes =~= old(self)@->Tag_attributes.push(
                        (Seq::empty(), Seq::empty()),
                    ));
                }
            },
            other => {
                *self = other;
            },
        }
    }

    /// Starts a new attribute of the current tag whose name begins with the
    /// given character and whose value is empty.
    pub fn start_attribute_tag_with(&mut self, ch: char)
        requires
            old(self)@ is Tag,
        ensures
            final(self)@ == old(self)@.with_new_attribute_named(ch),
    {
        let mut taken = HTMLLexeme::EndOfStream;
        core::mem::swap(self, &mut taken);
        match taken {
            HTMLLexeme::Tag { name, mut attributes, state } => {
                let mut attribute_name = String::new();
                push_char(&mut attribute_name, ch);
                attributes.push((attribute_name, String::new()));
                *self = HTMLLexeme::Tag { name, attributes, state };
                proof {
                    assert(final(self)@->Tag_attributes =~= old(self)@->Tag_attributes.push(
                        (seq![ch], Seq::empty()),
                    ));
                }
            },
            other => {
                *self = other;
            },
        }
    }
}

impl Clone for HTMLLexeme {
    /// A deep copy with the very same view.
    fn clone(&self) -> (r: Self)
        ensures
            r@ == self@,
    {
        match self {
            HTMLLexeme::Comment(text) => HTMLLexeme::Comment(text.clone()),
            HTMLLexeme::Tag { name, attributes, state } => {
                let mut cloned_attributes: Vec<(String, String)> = Vec::new();
                let mut i: usize = 0;
                while i < attributes.len()
                    invariant
                        0 <= i <= attributes@.len(),
                        cloned_attributes@.len() == i,
                        forall|j: int|
                            0 <= j < i ==> #[trigger] attrs_view(cloned_attributes@)[j]
                                == attrs_view(attributes@)[j],
                    decreases attributes@.len() - i,
                {
                    let ghost previous = cloned_attributes@;
                    let pair = (attributes[i].0.clone(), attributes[i].1.clone());
                    let ghost pair_snapshot = pair;
                    cloned_attributes.push(pair);
                    proof {
                        assert forall|j: int| 0 <= j < i as int + 1 implies #[trigger] attrs_view(
                            cloned_attributes@,
                        )[j] == attrs_view(attributes@)[j] by {
                            if j < i as int {
                                assert(cloned_attributes@[j] == previous[j]);
                                assert(attrs_view(previous)[j] == attrs_view(attributes@)[j]);
                            } else {
                                assert(cloned_attributes@[j] == pair_snapshot);
                                assert(pair_snapshot.0@ == attributes@[j].0@);
                                assert(pair_snapshot.1@ == attributes@[j].1@);
                            }
                        };
                    }
                    i = i + 1;
                }
                proof {
                    assert(attrs_view(cloned_attributes@) =~= attrs_view(attributes@));
                }
                HTMLLexeme::Tag {
                    name: name.clone(),
                    attributes: cloned_attributes,
                    state: *state,
                }
            },
            HTMLLexeme::Character(ch) => HTMLLexeme::Character(*ch),
            HTMLLexeme::EndOfStream => HTMLLexeme::EndOfStream,
        }
    }
}

} // verus!
