//! The mathematical model of the tokenizer: one configuration, the transition
//! each state makes on the next code unit, and the recursive function that
//! runs transitions until a call to produce tokens returns. The executable
//! tokenizer is proved to follow this model step for step.

use vstd::prelude::*;

use crate::codepoint::{
    spec_is_ascii_alpha, spec_is_ascii_upper_alpha, spec_lowercase_ascii, UnitCodePointExt,
};
use crate::location::{spec_saturating_add, Location};
use super::error::{HTMLLexicalError, HTMLLexicalErrorVariant};
use super::lexeme::{LexemeModel, TagState};
use super::token::TokenModel;
use super::token::HTMLToken;
use super::tokenizer::{
    HTMLTagMutation, HTMLTokenizerErr, HTMLTokenizerOk, HTMLTokenizerState,
};
use core::ops::ControlFlow;

verus! {

/// One tokenizer configuration: the dispatch state, the in-progress token,
/// the running position, and the code units still ahead.
pub struct MachineModel<T> {
    pub state: HTMLTokenizerState,
    pub token: Option<TokenModel>,
    pub location: Location,
    pub upcoming: Seq<T>,
}

/// What one state transition asks the dispatch loop to do.
pub enum EffectModel {
    /// No visible output; run the next transition.
    Silent,
    /// Replace the in-progress token by this lexeme, stamped with the current
    /// position, and run the next transition.
    SetToken(LexemeModel),
    /// Apply an accumulation operation to the in-progress token and run the
    /// next transition.
    Mutate(HTMLTagMutation),
    /// As `Mutate`, also recording a recovered lexical error.
    MutateWithError(HTMLTagMutation, HTMLLexicalErrorVariant),
    /// Return this lexeme as one token, stamped with the current position.
    EmitLexeme(LexemeModel),
    /// Return the in-progress token as it stands.
    EmitCurrent,
    /// As `EmitCurrent`, also recording a recovered lexical error.
    EmitCurrentWithError(HTMLLexicalErrorVariant),
    /// As `EmitLexeme`, also recording a recovered lexical error.
    EmitLexemeWithError(LexemeModel, HTMLLexicalErrorVariant),
    /// Return several lexemes as tokens, stamped, recording a recovered error.
    EmitManyWithError(Seq<LexemeModel>, HTMLLexicalErrorVariant),
    /// Return `emit`, replace the in-progress token by `update`, and record a
    /// recovered error, all at once.
    FullStop { emit: LexemeModel, update: LexemeModel, error: HTMLLexicalErrorVariant },
    /// Replace the in-progress token as given, unstamped, then abort the call
    /// with the error.
    FailSetToken(LexemeModel, HTMLLexicalErrorVariant),
    /// Abort the call with the error.
    Fail(HTMLLexicalErrorVariant),
}

/// One state transition: its effect, the state it moves to, and what is still
/// upcoming afterwards (one unit fewer when the transition consumed it, the
/// same units when it reconsumed).
pub struct HandlerStep<T> {
    pub effect: EffectModel,
    pub state: HTMLTokenizerState,
    pub upcoming: Seq<T>,
}

/// The result of one call to produce tokens: the tokens together with the
/// recovered errors, or the fatal error that aborted the call; and the
/// configuration left behind.
pub struct StepModel<T> {
    pub outcome: Result<(Seq<TokenModel>, Seq<HTMLLexicalError>), HTMLLexicalError>,
    pub machine: MachineModel<T>,
}

/// An error of the given kind at the given position.
pub open spec fn spec_error_at(
    variant: HTMLLexicalErrorVariant,
    location: Location,
) -> HTMLLexicalError {
    HTMLLexicalError { variant, location }
}

/// How the position advances for one examined unit: a tab opens four columns,
/// a line feed opens a line and resets the column, a carriage return does not
/// count, anything else opens one column. At the end of the input the
/// position stays.
pub open spec fn spec_advance_location<T: UnitCodePointExt>(
    location: Location,
    head: Option<T>,
) -> Location {
    match head {
        Option::None => location,
        Option::Some(u) => {
            if u.matches_char('\u{09}') {
                Location {
                    column: spec_saturating_add(location.column, 4),
                    end: spec_saturating_add(location.end, 4),
                    ..location
                }
            } else if u.matches_char('\n') {
                Location {
                    line: spec_saturating_add(location.line, 1),
                    end: spec_saturating_add(location.end, 1),
                    column: 1,
                    ..location
                }
            } else if u.matches_char('\r') {
                location
            } else {
                Location {
                    column: spec_saturating_add(location.column, 1),
                    end: spec_saturating_add(location.end, 1),
                    ..location
                }
            }
        },
    }
}

/// An accumulation operation applied to the in-progress token: a missing
/// token, and any token that is not a tag, is left unchanged.
pub open spec fn spec_apply_mutation(
    token: Option<TokenModel>,
    mutation: HTMLTagMutation,
) -> Option<TokenModel> {
    match token {
        Option::None => Option::None,
        Option::Some(t) => Option::Some(
            TokenModel {
                lexeme: match mutation {
                    HTMLTagMutation::AddCharacterToTagName(ch) => t.lexeme.with_name_char(ch),
                    HTMLTagMutation::AddCharacterToLastAttributeName(ch) =>
                        t.lexeme.with_last_attribute_name_char(ch),
                    HTMLTagMutation::AddCharacterToLastAttributeValue(ch) =>
                        t.lexeme.with_last_attribute_value_char(ch),
                    HTMLTagMutation::StartEmptyAttribute => t.lexeme.with_new_empty_attribute(),
                    HTMLTagMutation::StartAttributeWith(ch) => t.lexeme.with_new_attribute_named(
                        ch,
                    ),
                },
                ..t
            },
        ),
    }
}

/// The data state: `&` is the stubbed character reference (a no-op), `<`
/// opens a tag, NUL is a fatal error, anything else is one character of text,
/// and the end of the input is the end-of-stream token.
pub open spec fn spec_data_state<T: UnitCodePointExt>(up: Seq<T>) -> HandlerStep<T> {
    if up.len() == 0 {
        HandlerStep {
            effect: EffectModel::EmitLexeme(LexemeModel::EndOfStream),
            state: HTMLTokenizerState::Data,
            upcoming: up,
        }
    } else {
        let u = up[0];
        let rest = up.skip(1);
        if u.matches_char('&') {
            HandlerStep { effect: EffectModel::Silent, state: HTMLTokenizerState::Data, upcoming: rest }
        } else if u.matches_char('<') {
            HandlerStep {
                effect: EffectModel::Silent,
                state: HTMLTokenizerState::TagOpen,
                upcoming: rest,
            }
        } else if u.matches_char('\u{00}') {
            HandlerStep {
                effect: EffectModel::Fail(HTMLLexicalErrorVariant::UnexpectedNullCharacter),
                state: HTMLTokenizerState::Data,
                upcoming: rest,
            }
        } else {
            HandlerStep {
                effect: EffectModel::EmitLexeme(LexemeModel::Character(u.to_unit())),
                state: HTMLTokenizerState::Data,
                upcoming: rest,
            }
        }
    }
}

/// The tag-open state, right after `<`.
pub open spec fn spec_tag_open_state<T: UnitCodePointExt>(up: Seq<T>) -> HandlerStep<T> {
    if up.len() == 0 {
        HandlerStep {
            effect: EffectModel::FullStop {
                emit: LexemeModel::Character('<'),
                update: LexemeModel::EndOfStream,
                error: HTMLLexicalErrorVariant::EndOfStreamBeforeTagName,
            },
            state: HTMLTokenizerState::TagOpen,
            upcoming: up,
        }
    } else {
        let u = up[0];
        let rest = up.skip(1);
        if u.matches_char('!') {
            HandlerStep {
                effect: EffectModel::Silent,
                state: HTMLTokenizerState::MarkupDeclarationOpen,
                upcoming: rest,
            }
        } else if u.matches_char('/') {
            HandlerStep {
                effect: EffectModel::Silent,
                state: HTMLTokenizerState::EndTagOpen,
                upcoming: rest,
            }
        } else if u.matches_char('?') {
            HandlerStep {
                effect: EffectModel::FailSetToken(
                    LexemeModel::Comment(Seq::empty()),
                    HTMLLexicalErrorVariant::UnexpectedQuestionMarkInsteadOfTagName,
                ),
                state: HTMLTokenizerState::BogusComment,
                upcoming: up,
            }
        } else if spec_is_ascii_alpha(u.to_unit()) {
            HandlerStep {
                effect: EffectModel::SetToken(
                    LexemeModel::Tag {
                        name: Seq::empty(),
                        attributes: Seq::empty(),
                        state: TagState::Opened,
                    },
                ),
                state: HTMLTokenizerState::TagName,
                upcoming: up,
            }
        } else {
            HandlerStep {
                effect: EffectModel::EmitLexemeWithError(
                    LexemeModel::Character('<'),
                    HTMLLexicalErrorVariant::InvalidFirstCharacterOfTagName { found: u.to_unit() },
                ),
                state: HTMLTokenizerState::Data,
                upcoming: up,
            }
        }
    }
}

/// The end-tag-open state, right after `</`.
pub open spec fn spec_end_tag_open_state<T: UnitCodePointExt>(up: Seq<T>) -> HandlerStep<T> {
    if up.len() == 0 {
        HandlerStep {
            effect: EffectModel::EmitManyWithError(
                seq![
                    LexemeModel::Character('<'),
                    LexemeModel::Character('/'),
                    LexemeModel::EndOfStream,
                ],
                HTMLLexicalErrorVariant::EndOfStreamBeforeTagName,
            ),
            state: HTMLTokenizerState::EndTagOpen,
            upcoming: up,
        }
    } else {
        let u = up[0];
        let rest = up.skip(1);
        if spec_is_ascii_alpha(u.to_unit()) {
            HandlerStep {
                effect: EffectModel::SetToken(
                    LexemeModel::Tag {
                        name: Seq::empty(),
                        attributes: Seq::empty(),
                        state: TagState::Closed,
                    },
                ),
                state: HTMLTokenizerState::TagName,
                upcoming: up,
            }
        } else if u.matches_char('>') {
            HandlerStep {
                effect: EffectModel::Fail(HTMLLexicalErrorVariant::MissingEndTagName),
                state: HTMLTokenizerState::Data,
                upcoming: rest,
            }
        } else {
            HandlerStep {
                effect: EffectModel::FailSetToken(
                    LexemeModel::Comment(Seq::empty()),
                    HTMLLexicalErrorVariant::InvalidFirstCharacterOfTagName { found: u.to_unit() },
                ),
                state: HTMLTokenizerState::BogusComment,
                upcoming: up,
            }
        }
    }
}

/// The tag-name state: whitespace moves to the attributes, `/` to a
/// self-closing tag, `>` finishes the tag; uppercase letters are folded to
/// lowercase, NUL becomes U+FFFD with an error, anything else is appended.
pub open spec fn spec_tag_name_state<T: UnitCodePointExt>(up: Seq<T>) -> HandlerStep<T> {
    if up.len() == 0 {
        HandlerStep {
            effect: EffectModel::EmitLexemeWithError(
                LexemeModel::EndOfStream,
                HTMLLexicalErrorVariant::EndOfStreamInTag,
            ),
            state: HTMLTokenizerState::TagName,
            upcoming: up,
        }
    } else {
        let u = up[0];
        let rest = up.skip(1);
        if u.whitespace_spec() {
            HandlerStep {
                effect: EffectModel::Silent,
                state: HTMLTokenizerState::BeforeAttributeName,
                upcoming: rest,
            }
        } else if u.matches_char('/') {
            HandlerStep {
                effect: EffectModel::Silent,
                state: HTMLTokenizerState::SelfClosingStartTag,
                upcoming: rest,
            }
        } else if u.matches_char('>') {
            HandlerStep {
                effect: EffectModel::EmitCurrent,
                state: HTMLTokenizerState::Data,
                upcoming: rest,
            }
        } else if spec_is_ascii_upper_alpha(u.to_unit()) {
            HandlerStep {
                effect: EffectModel::Mutate(
                    HTMLTagMutation::AddCharacterToTagName(spec_lowercase_ascii(u.to_unit())),
                ),
                state: HTMLTokenizerState::TagName,
                upcoming: rest,
            }
        } else if u.matches_char('\u{00}') {
            HandlerStep {
                effect: EffectModel::MutateWithError(
                    HTMLTagMutation::AddCharacterToTagName('\u{FFFD}'),
                    HTMLLexicalErrorVariant::UnexpectedNullCharacter,
                ),
                state: HTMLTokenizerState::TagName,
                upcoming: rest,
            }
        } else {
            HandlerStep {
                effect: EffectModel::Mutate(HTMLTagMutation::AddCharacterToTagName(u.to_unit())),
                state: HTMLTokenizerState::TagName,
                upcoming: rest,
            }
        }
    }
}

/// The before-attribute-name state.
pub open spec fn spec_before_attribute_name_state<T: UnitCodePointExt>(
    up: Seq<T>,
) -> HandlerStep<T> {
    if up.len() == 0 {
        HandlerStep {
            effect: EffectModel::Silent,
            state: HTMLTokenizerState::AfterAttributeName,
            upcoming: up,
        }
    } else {
        let u = up[0];
        let rest = up.skip(1);
        if u.whitespace_spec() {
            HandlerStep {
                effect: EffectModel::Silent,
                state: HTMLTokenizerState::BeforeAttributeName,
                upcoming: rest,
            }
        } else if u.matches_char('/') || u.matches_char('>') {
            HandlerStep {
                effect: EffectModel::Silent,
                state: HTMLTokenizerState::AfterAttributeName,
                upcoming: up,
            }
        } else if u.matches_char('=') {
            HandlerStep {
                effect: EffectModel::MutateWithError(
                    HTMLTagMutation::StartAttributeWith(u.to_unit()),
                    HTMLLexicalErrorVariant::UnexpectedEqualsSignBeforeAttributeName,
                ),
                state: HTMLTokenizerState::AttributeName,
                upcoming: rest,
            }
        } else {
            HandlerStep {
                effect: EffectModel::Mutate(HTMLTagMutation::StartEmptyAttribute),
                state: HTMLTokenizerState::AttributeName,
                upcoming: up,
            }
        }
    }
}

/// The attribute-name state.
pub open spec fn spec_attribute_name_state<T: UnitCodePointExt>(up: Seq<T>) -> HandlerStep<T> {
    if up.len() == 0 {
        HandlerStep {
            effect: EffectModel::Silent,
            state: HTMLTokenizerState::AfterAttributeName,
            upcoming: up,
        }
    } else {
        let u = up[0];
        let rest = up.skip(1);
        if u.whitespace_spec() || u.matches_char('/') || u.matches_char('>') {
            HandlerStep {
                effect: EffectModel::Silent,
                state: HTMLTokenizerState::AfterAttributeName,
                upcoming: up,
            }
        } else if u.matches_char('=') {
            HandlerStep {
                effect: EffectModel::Silent,
                state: HTMLTokenizerState::BeforeAttributeValue,
                upcoming: rest,
            }
        } else if spec_is_ascii_upper_alpha(u.to_unit()) {
            HandlerStep {
                effect: EffectModel::Mutate(
                    HTMLTagMutation::AddCharacterToLastAttributeName(
                        spec_lowercase_ascii(u.to_unit()),
                    ),
                ),
                state: HTMLTokenizerState::AttributeName,
                upcoming: rest,
            }
        } else if u.matches_char('\u{00}') {
            HandlerStep {
                effect: EffectModel::MutateWithError(
                    HTMLTagMutation::AddCharacterToLastAttributeName('\u{FFFD}'),
                    HTMLLexicalErrorVariant::UnexpectedNullCharacter,
                ),
                state: HTMLTokenizerState::AttributeName,
                upcoming: rest,
            }
        } else if u.matches_char('\u{22}') || u.matches_char('\u{27}') || u.matches_char('<') {
            HandlerStep {
                effect: EffectModel::MutateWithError(
                    HTMLTagMutation::AddCharacterToLastAttributeName(u.to_unit()),
                    HTMLLexicalErrorVariant::UnexpectedCharacterInAttributeName {
                        found: u.to_unit(),
                    },
                ),
                state: HTMLTokenizerState::AttributeName,
                upcoming: rest,
            }
        } else {
            HandlerStep {
                effect: EffectModel::Mutate(
                    HTMLTagMutation::AddCharacterToLastAttributeName(u.to_unit()),
                ),
                state: HTMLTokenizerState::AttributeName,
                upcoming: rest,
            }
        }
    }
}

/// The after-attribute-name state.
pub open spec fn spec_after_attribute_name_state<T: UnitCodePointExt>(
    up: Seq<T>,
) -> HandlerStep<T> {
    if up.len() == 0 {
        HandlerStep {
            effect: EffectModel::EmitLexemeWithError(
                LexemeModel::EndOfStream,
                HTMLLexicalErrorVariant::EndOfStreamInTag,
            ),
            state: HTMLTokenizerState::AfterAttributeName,
            upcoming: up,
        }
    } else {
        let u = up[0];
        let rest = up.skip(1);
        if u.whitespace_spec() {
            HandlerStep {
                effect: EffectModel::Silent,
                state: HTMLTokenizerState::AfterAttributeName,
                upcoming: rest,
            }
        } else if u.matches_char('/') {
            HandlerStep {
                effect: EffectModel::Silent,
                state: HTMLTokenizerState::SelfClosingStartTag,
                upcoming: rest,
            }
        } else if u.matches_char('=') {
            HandlerStep {
                effect: EffectModel::Silent,
                state: HTMLTokenizerState::BeforeAttributeValue,
                upcoming: rest,
            }
        } else if u.matches_char('>') {
            HandlerStep {
                effect: EffectModel::EmitCurrent,
                state: HTMLTokenizerState::Data,
                upcoming: rest,
            }
        } else {
            HandlerStep {
                effect: EffectModel::Mutate(HTMLTagMutation::StartEmptyAttribute),
                state: HTMLTokenizerState::AttributeName,
                upcoming: up,
            }
        }
    }
}

/// The before-attribute-value state.
pub open spec fn spec_before_attribute_value_state<T: UnitCodePointExt>(
    up: Seq<T>,
) -> HandlerStep<T> {
    if up.len() == 0 {
        HandlerStep {
            effect: EffectModel::Silent,
            state: HTMLTokenizerState::AttributeValue { quote: Option::None },
            upcoming: up,
        }
    } else {
        let u = up[0];
        let rest = up.skip(1);
        if u.whitespace_spec() {
            HandlerStep {
                effect: EffectModel::Silent,
                state: HTMLTokenizerState::BeforeAttributeValue,
                upcoming: rest,
            }
        } else if u.matches_char('\u{22}') || u.matches_char('\u{27}') {
            HandlerStep {
                effect: EffectModel::Silent,
                state: HTMLTokenizerState::AttributeValue { quote: Option::Some(u.to_unit()) },
                upcoming: rest,
            }
        } else if u.matches_char('>') {
            HandlerStep {
                effect: EffectModel::EmitCurrentWithError(
                    HTMLLexicalErrorVariant::MissingAttributeValue,
                ),
                state: HTMLTokenizerState::Data,
                upcoming: rest,
            }
        } else {
            HandlerStep {
                effect: EffectModel::Silent,
                state: HTMLTokenizerState::AttributeValue { quote: Option::None },
                upcoming: up,
            }
        }
    }
}

/// The attribute-value states, quoted and unquoted. With character-reference
/// decoding unsupported, `&` accumulates literally into the value.
pub open spec fn spec_attribute_value_state<T: UnitCodePointExt>(
    quote: Option<char>,
    up: Seq<T>,
) -> HandlerStep<T> {
    if up.len() == 0 {
        HandlerStep {
            effect: EffectModel::EmitLexemeWithError(
                LexemeModel::EndOfStream,
                HTMLLexicalErrorVariant::EndOfStreamInTag,
            ),
            state: HTMLTokenizerState::AttributeValue { quote },
            upcoming: up,
        }
    } else {
        let u = up[0];
        let rest = up.skip(1);
        match quote {
            Option::Some(quoted) => {
                if u.to_unit() == quoted {
                    HandlerStep {
                        effect: EffectModel::Silent,
                        state: HTMLTokenizerState::AfterAttributeValue { quote },
                        upcoming: rest,
                    }
                } else if u.matches_char('\u{00}') {
                    HandlerStep {
                        effect: EffectModel::MutateWithError(
                            HTMLTagMutation::AddCharacterToLastAttributeValue('\u{FFFD}'),
                            HTMLLexicalErrorVariant::UnexpectedNullCharacter,
                        ),
                        state: HTMLTokenizerState::AttributeValue { quote },
                        upcoming: rest,
                    }
                } else {
                    HandlerStep {
                        effect: EffectModel::Mutate(
                            HTMLTagMutation::AddCharacterToLastAttributeValue(u.to_unit()),
                        ),
                        state: HTMLTokenizerState::AttributeValue { quote },
                        upcoming: rest,
                    }
                }
            },
            Option::None => {
                if u.whitespace_spec() {
                    HandlerStep {
                        effect: EffectModel::Silent,
                        state: HTMLTokenizerState::BeforeAttributeName,
                        upcoming: rest,
                    }
                } else if u.matches_char('>') {
                    HandlerStep {
                        effect: EffectModel::EmitCurrent,
                        state: HTMLTokenizerState::Data,
                        upcoming: rest,
                    }
                } else if u.matches_char('\u{00}') {
                    HandlerStep {
                        effect: EffectModel::MutateWithError(
                            HTMLTagMutation::AddCharacterToLastAttributeValue('\u{FFFD}'),
                            HTMLLexicalErrorVariant::UnexpectedNullCharacter,
                        ),
                        state: HTMLTokenizerState::AttributeValue { quote },
                        upcoming: rest,
                    }
                } else if u.matches_char('\u{22}') || u.matches_char('\u{27}') || u.matches_char(
                    '<',
                ) || u.matches_char('=') || u.matches_char('\u{60}') {
                    HandlerStep {
                        effect: EffectModel::MutateWithError(
                            HTMLTagMutation::AddCharacterToLastAttributeValue(u.to_unit()),
                            HTMLLexicalErrorVariant::UnexpectedCharacterInUnquotedAttributeValue {
                                found: u.to_unit(),
                            },
                        ),
                        state: HTMLTokenizerState::AttributeValue { quote },
                        upcoming: rest,
                    }
                } else {
                    HandlerStep {
                        effect: EffectModel::Mutate(
                            HTMLTagMutation::AddCharacterToLastAttributeValue(u.to_unit()),
                        ),
                        state: HTMLTokenizerState::AttributeValue { quote },
                        upcoming: rest,
                    }
                }
            },
        }
    }
}

/// The after-attribute-value state, right after a closing quote.
pub open spec fn spec_after_attribute_value_state<T: UnitCodePointExt>(
    quote: Option<char>,
    up: Seq<T>,
) -> HandlerStep<T> {
    if up.len() == 0 {
        HandlerStep {
            effect: EffectModel::EmitLexemeWithError(
                LexemeModel::EndOfStream,
                HTMLLexicalErrorVariant::EndOfStreamInTag,
            ),
            state: HTMLTokenizerState::AfterAttributeValue { quote },
            upcoming: up,
        }
    } else {
        let u = up[0];
        let rest = up.skip(1);
        if u.whitespace_spec() {
            HandlerStep {
                effect: EffectModel::Silent,
                state: HTMLTokenizerState::BeforeAttributeName,
                upcoming: rest,
            }
        } else if u.matches_char('/') {
            HandlerStep {
                effect: EffectModel::Silent,
                state: HTMLTokenizerState::SelfClosingStartTag,
                upcoming: rest,
            }
        } else if u.matches_char('>') {
            HandlerStep {
                effect: EffectModel::EmitCurrent,
                state: HTMLTokenizerState::Data,
                upcoming: rest,
            }
        } else {
            HandlerStep {
                effect: EffectModel::Fail(
                    HTMLLexicalErrorVariant::MissingWhitespaceBetweenAttributes,
                ),
                state: HTMLTokenizerState::BeforeAttributeName,
                upcoming: up,
            }
        }
    }
}

/// The transition the current state makes on the next unit. The states with
/// no handler are given an idle step here; the dispatch model returns the
/// end-of-stream token for them without consulting this function.
pub open spec fn spec_handler_step<T: UnitCodePointExt>(
    state: HTMLTokenizerState,
    up: Seq<T>,
) -> HandlerStep<T> {
    match state {
        HTMLTokenizerState::Data => spec_data_state(up),
        HTMLTokenizerState::TagOpen => spec_tag_open_state(up),
        HTMLTokenizerState::EndTagOpen => spec_end_tag_open_state(up),
        HTMLTokenizerState::TagName => spec_tag_name_state(up),
        HTMLTokenizerState::BeforeAttributeName => spec_before_attribute_name_state(up),
        HTMLTokenizerState::AttributeName => spec_attribute_name_state(up),
        HTMLTokenizerState::AfterAttributeName => spec_after_attribute_name_state(up),
        HTMLTokenizerState::BeforeAttributeValue => spec_before_attribute_value_state(up),
        HTMLTokenizerState::AttributeValue { quote } => spec_attribute_value_state(quote, up),
        HTMLTokenizerState::AfterAttributeValue { quote } => spec_after_attribute_value_state(
            quote,
            up,
        ),
        _ => HandlerStep { effect: EffectModel::Silent, state, upcoming: up },
    }
}

/// A bound on how many transitions can run before a unit is consumed or the
/// call returns, used to show that a call always ends: every reconsuming
/// transition strictly lowers it.
pub open spec fn spec_rank<T: UnitCodePointExt>(m: MachineModel<T>) -> nat {
    match m.state {
        HTMLTokenizerState::TagOpen => 1,
        HTMLTokenizerState::EndTagOpen => 1,
        HTMLTokenizerState::BeforeAttributeName => 1,
        HTMLTokenizerState::BeforeAttributeValue => 1,
        HTMLTokenizerState::AttributeName => {
            if m.upcoming.len() == 0 {
                2
            } else {
                let u = m.upcoming[0];
                if u.whitespace_spec() || u.matches_char('/') || u.matches_char('>') {
                    2
                } else {
                    0
                }
            }
        },
        HTMLTokenizerState::AfterAttributeName => {
            if m.upcoming.len() == 0 {
                0
            } else {
                let u = m.upcoming[0];
                if u.whitespace_spec() || u.matches_char('/') || u.matches_char('=')
                    || u.matches_char('>') {
                    0
                } else {
                    1
                }
            }
        },
        _ => 0,
    }
}

/// One call to produce tokens, from the given configuration, with the
/// recovered errors collected so far: transitions run until tokens are
/// returned or a fatal condition aborts the call.
pub open spec fn spec_consume_next<T: UnitCodePointExt>(
    m: MachineModel<T>,
    errors: Seq<HTMLLexicalError>,
) -> StepModel<T>
    decreases m.upcoming.len(), spec_rank(m),
{
    let head = if m.upcoming.len() > 0 {
        Option::Some(m.upcoming[0])
    } else {
        Option::<T>::None
    };
    let loc = spec_advance_location(m.location, head);
    match m.state {
        HTMLTokenizerState::MarkupDeclarationOpen
        | HTMLTokenizerState::BogusComment
        | HTMLTokenizerState::SelfClosingStartTag => StepModel {
            outcome: Ok(
                (seq![TokenModel { lexeme: LexemeModel::EndOfStream, location: loc }], errors),
            ),
            machine: MachineModel { location: loc, ..m },
        },
        _ => {
            let h = spec_handler_step(m.state, m.upcoming);
            let moved = MachineModel {
                state: h.state,
                token: m.token,
                location: loc,
                upcoming: h.upcoming,
            };
            match h.effect {
                EffectModel::Silent => spec_consume_next(moved, errors),
                EffectModel::SetToken(lexeme) => spec_consume_next(
                    MachineModel {
                        token: Option::Some(TokenModel { lexeme, location: loc }),
                        ..moved
                    },
                    errors,
                ),
                EffectModel::Mutate(mutation) => spec_consume_next(
                    MachineModel { token: spec_apply_mutation(m.token, mutation), ..moved },
                    errors,
                ),
                EffectModel::MutateWithError(mutation, variant) => spec_consume_next(
                    MachineModel { token: spec_apply_mutation(m.token, mutation), ..moved },
                    errors.push(spec_error_at(variant, loc)),
                ),
                EffectModel::EmitLexeme(lexeme) => StepModel {
                    outcome: Ok((seq![TokenModel { lexeme, location: loc }], errors)),
                    machine: moved,
                },
                EffectModel::EmitCurrent => StepModel {
                    outcome: match m.token {
                        Option::Some(t) => Ok((seq![t], errors)),
                        Option::None => Err(
                            spec_error_at(HTMLLexicalErrorVariant::Unknown, loc),
                        ),
                    },
                    machine: moved,
                },
                EffectModel::EmitCurrentWithError(variant) => StepModel {
                    outcome: match m.token {
                        Option::Some(t) => Ok(
                            (seq![t], errors.push(spec_error_at(variant, loc))),
                        ),
                        Option::None => Err(
                            spec_error_at(HTMLLexicalErrorVariant::Unknown, loc),
                        ),
                    },
                    machine: moved,
                },
                EffectModel::EmitLexemeWithError(lexeme, variant) => StepModel {
                    outcome: Ok(
                        (
                            seq![TokenModel { lexeme, location: loc }],
                            errors.push(spec_error_at(variant, loc)),
                        ),
                    ),
                    machine: moved,
                },
                EffectModel::EmitManyWithError(lexemes, variant) => StepModel {
                    outcome: Ok(
                        (
                            lexemes.map_values(
                                |lexeme: LexemeModel| TokenModel { lexeme, location: loc },
                            ),
                            errors.push(spec_error_at(variant, loc)),
                        ),
                    ),
                    machine: moved,
                },
                EffectModel::FullStop { emit, update, error } => StepModel {
                    outcome: Ok(
                        (
                            seq![TokenModel { lexeme: emit, location: loc }],
                            errors.push(spec_error_at(error, loc)),
                        ),
                    ),
                    machine: MachineModel {
                        token: Option::Some(TokenModel { lexeme: update, location: loc }),
                        ..moved
                    },
                },
                EffectModel::FailSetToken(lexeme, variant) => StepModel {
                    outcome: Err(spec_error_at(variant, loc)),
                    machine: MachineModel {
                        token: Option::Some(
                            TokenModel { lexeme, location: Location::spec_new() },
                        ),
                        ..moved
                    },
                },
                EffectModel::Fail(variant) => StepModel {
                    outcome: Err(spec_error_at(variant, loc)),
                    machine: moved,
                },
            }
        },
    }
}

/// A sequence of tokens at the level of the model.
pub open spec fn spec_tokens_view(tokens: Seq<HTMLToken>) -> Seq<TokenModel> {
    tokens.map_values(|t: HTMLToken| t@)
}

/// What a handler's returned control flow means, as an effect of the model:
/// the positions the dispatch loop will stamp are not yet applied here.
pub open spec fn flow_effect(cf: ControlFlow<HTMLTokenizerErr, HTMLTokenizerOk>) -> EffectModel {
    match cf {
        ControlFlow::Continue(ok) => match ok {
            HTMLTokenizerOk::Update(t) => EffectModel::SetToken(t@.lexeme),
            HTMLTokenizerOk::Mutate(mutation) => EffectModel::Mutate(mutation),
            HTMLTokenizerOk::MutateWithError(mutation, e) => EffectModel::MutateWithError(
                mutation,
                e.variant,
            ),
            HTMLTokenizerOk::Emit(t) => EffectModel::EmitLexeme(t@.lexeme),
            HTMLTokenizerOk::EmitCurrent => EffectModel::EmitCurrent,
            HTMLTokenizerOk::EmitCurrentWithError(e) => EffectModel::EmitCurrentWithError(
                e.variant,
            ),
            HTMLTokenizerOk::EmitWithError(t, e) => EffectModel::EmitLexemeWithError(
                t@.lexeme,
                e.variant,
            ),
            HTMLTokenizerOk::ManyEmitWithError(ts, e) => EffectModel::EmitManyWithError(
                ts@.map_values(|t: HTMLToken| t@.lexeme),
                e.variant,
            ),
            HTMLTokenizerOk::Full { emit, update, error } => EffectModel::FullStop {
                emit: emit@.lexeme,
                update: update@.lexeme,
                error: error.variant,
            },
            HTMLTokenizerOk::Silent => EffectModel::Silent,
        },
        ControlFlow::Break(err) => match err {
            HTMLTokenizerErr::Update(t, e) => EffectModel::FailSetToken(t@.lexeme, e.variant),
            HTMLTokenizerErr::Emit(e) => EffectModel::Fail(e.variant),
        },
    }
}

/// A token that replaces the in-progress one on a fatal break keeps the
/// position it was built with; the handlers build it at the default position,
/// which is what the model states.
pub open spec fn flow_break_update_fresh(
    cf: ControlFlow<HTMLTokenizerErr, HTMLTokenizerOk>,
) -> bool {
    match cf {
        ControlFlow::Break(HTMLTokenizerErr::Update(t, e)) => t@.location == Location::spec_new(),
        _ => true,
    }
}

/// The configuration at the start of a call: the start offset catches up with
/// the end offset, so the tokens of this call span from where the previous
/// call ended.
pub open spec fn spec_align<T>(m: MachineModel<T>) -> MachineModel<T> {
    MachineModel { location: Location { start: m.location.end, ..m.location }, ..m }
}

/// The full result of one call to produce tokens on a fresh error list.
pub open spec fn spec_call<T: UnitCodePointExt>(m: MachineModel<T>) -> StepModel<T> {
    spec_consume_next(spec_align(m), Seq::empty())
}

/// Within one call, the position's start offset stays put, its end offset
/// never moves back, and every token of the call either carries the call's
/// own span (ending no later than the position reached) or is the token that
/// was already under construction when the call began.
pub proof fn lemma_consume_spans<T: UnitCodePointExt>(
    m: MachineModel<T>,
    errors: Seq<HTMLLexicalError>,
)
    requires
        m.token is Some ==> m.token->0.location.end <= m.location.end,
    ensures
        ({
            let step = spec_consume_next(m, errors);
            &&& step.machine.location.start == m.location.start
            &&& step.machine.location.end >= m.location.end
            &&& (step.machine.token is Some ==> step.machine.token->0.location.end
                <= step.machine.location.end)
            &&& match step.outcome {
                Ok((tokens, _)) => forall|i: int|
                    0 <= i < tokens.len() ==> ((#[trigger] tokens[i]).location.end
                        <= step.machine.location.end && (tokens[i].location.start
                        == m.location.start || (m.token is Some && tokens[i].location
                        == m.token->0.location))),
                Err(_) => true,
            }
        }),
    decreases m.upcoming.len(), spec_rank(m),
{
    let head = if m.upcoming.len() > 0 {
        Option::Some(m.upcoming[0])
    } else {
        Option::<T>::None
    };
    let loc = spec_advance_location(m.location, head);
    assert(loc.start == m.location.start);
    assert(loc.end >= m.location.end);
    match m.state {
        HTMLTokenizerState::MarkupDeclarationOpen
        | HTMLTokenizerState::BogusComment
        | HTMLTokenizerState::SelfClosingStartTag => {
        },
        _ => {
            let h = spec_handler_step(m.state, m.upcoming);
            let moved = MachineModel {
                state: h.state,
                token: m.token,
                location: loc,
                upcoming: h.upcoming,
            };
            match h.effect {
                EffectModel::Silent => {
                    lemma_consume_spans(moved, errors);
                },
                EffectModel::SetToken(lexeme) => {
                    lemma_consume_spans(
                        MachineModel {
                            token: Option::Some(TokenModel { lexeme, location: loc }),
                            ..moved
                        },
                        errors,
                    );
                },
                EffectModel::Mutate(mutation) => {
                    lemma_consume_spans(
                        MachineModel { token: spec_apply_mutation(m.token, mutation), ..moved },
                        errors,
                    );
                },
                EffectModel::MutateWithError(mutation, variant) => {
                    lemma_consume_spans(
                        MachineModel { token: spec_apply_mutation(m.token, mutation), ..moved },
                        errors.push(spec_error_at(variant, loc)),
                    );
                },
                EffectModel::EmitManyWithError(lexemes, variant) => {
                    let tokens = lexemes.map_values(
                        |lexeme: LexemeModel| TokenModel { lexeme, location: loc },
                    );
                    assert(forall|i: int|
                        0 <= i < tokens.len() ==> (#[trigger] tokens[i]).location == loc);
                },
                _ => {
                },
            }
        },
    }
}

/// Location monotonicity: of two calls made in sequence, every token the
/// second stamps itself begins no earlier than any token of the first ends.
/// The one exception is a token that was already under construction when the
/// second call began and is handed out as it stands: it keeps the span it was
/// stamped with when it was begun.
pub proof fn lemma_location_monotonic_across_calls<T: UnitCodePointExt>(m: MachineModel<T>)
    requires
        m.token is Some ==> m.token->0.location.end <= m.location.end,
    ensures
        ({
            let first = spec_call(m);
            let second = spec_call(first.machine);
            match (first.outcome, second.outcome) {
                (Ok((first_tokens, _)), Ok((second_tokens, _))) => forall|i: int, j: int|
                    0 <= i < first_tokens.len() && 0 <= j < second_tokens.len() ==> ((
                    #[trigger] second_tokens[j]).location.start >= (
                    #[trigger] first_tokens[i]).location.end || (first.machine.token is Some
                        && second_tokens[j].location == first.machine.token->0.location)),
                _ => true,
            }
        }),
{
    lemma_consume_spans(spec_align(m), Seq::<HTMLLexicalError>::empty());
    let first = spec_call(m);
    lemma_consume_spans(spec_align(first.machine), Seq::<HTMLLexicalError>::empty());
}

/// What one call returns.
pub open spec fn spec_call_outcome<T: UnitCodePointExt>(m: MachineModel<T>) -> Result<
    (Seq<TokenModel>, Seq<HTMLLexicalError>),
    HTMLLexicalError,
> {
    spec_call(m).outcome
}

/// The configuration one call leaves behind.
pub open spec fn spec_call_machine<T: UnitCodePointExt>(m: MachineModel<T>) -> MachineModel<T> {
    spec_call(m).machine
}

} // verus!
