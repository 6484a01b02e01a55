//! The tokenizer: the states, the dispatch loop, and the interpretation of
//! per-state handler outcomes. Each call to `consume_next` runs internal state
//! transitions until one or more tokens can be returned, or a fatal condition
//! aborts the call with an error.

use vstd::prelude::*;
use core::ops::ControlFlow;

use crate::codepoint::UnitCodePointExt;
use crate::input::InputStream;
use crate::input::{spec_rollback_step, StreamModel};
use crate::location::Location;
use super::error::HTMLLexicalError;
use super::lexeme::{HTMLLexeme, LexemeModel};
use super::model::{
    spec_align, spec_apply_mutation, spec_call_machine, spec_call_outcome, spec_consume_next,
    spec_tokens_view, MachineModel, StepModel,
};
use super::stream::{HTMLTokenizerDataStream, HTMLTokenizerTagStream};
use super::token::{HTMLToken, TokenModel};

verus! {

/// The flat, non-hierarchical states of the tokenizer.
#[derive(Debug, Copy, Clone, PartialEq, Eq, Structural)]
pub enum HTMLTokenizerState {
    AfterAttributeName,
    AttributeName,
    /// Inside an attribute value; `quote` is the quote character for a quoted
    /// value and nothing for an unquoted one.
    AttributeValue { quote: Option<char> },
    /// Right after a quoted attribute value.
    AfterAttributeValue { quote: Option<char> },
    BeforeAttributeName,
    BeforeAttributeValue,
    BogusComment,
    Data,
    EndTagOpen,
    MarkupDeclarationOpen,
    SelfClosingStartTag,
    TagName,
    TagOpen,
}

/// The closed set of accumulation operations a handler can ask the dispatch
/// loop to apply to the in-progress tag token.
#[derive(Debug, Copy, Clone, PartialEq, Eq, Structural)]
pub enum HTMLTagMutation {
    /// Append a character to the tag name.
    AddCharacterToTagName(char),
    /// Append a character to the name of the last attribute.
    AddCharacterToLastAttributeName(char),
    /// Append a character to the value of the last attribute.
    AddCharacterToLastAttributeValue(char),
    /// Start a new attribute with an empty name and value.
    StartEmptyAttribute,
    /// Start a new attribute whose name begins with the given character.
    StartAttributeWith(char),
}

/// What a handler asks the dispatch loop to do when the current call can go
/// on.
pub enum HTMLTokenizerOk {
    /// Replace the in-progress token, stamped with the current position.
    Update(HTMLToken),
    /// Apply an accumulation operation to the in-progress token.
    Mutate(HTMLTagMutation),
    /// Apply an accumulation operation and record a recovered lexical error.
    MutateWithError(HTMLTagMutation, HTMLLexicalError),
    /// Return the given token, stamped with the current position.
    Emit(HTMLToken),
    /// Return the in-progress token as it stands.
    EmitCurrent,
    /// Return the in-progress token and record a recovered lexical error.
    EmitCurrentWithError(HTMLLexicalError),
    /// Return the given token, stamped, and record a recovered error.
    EmitWithError(HTMLToken, HTMLLexicalError),
    /// Return several tokens, stamped, and record a recovered error.
    ManyEmitWithError(Vec<HTMLToken>, HTMLLexicalError),
    /// Return `emit`, replace the in-progress token by `update`, and record a
    /// recovered error, all at once.
    Full { emit: HTMLToken, update: HTMLToken, error: HTMLLexicalError },
    /// No visible output; proceed with the next state transition.
    Silent,
}

/// What a handler asks the dispatch loop to do when the current call must
/// abort: a fatal break, surfacing the error as the call's failure result.
pub enum HTMLTokenizerErr {
    /// Replace the in-progress token as given, then fail with the error.
    Update(HTMLToken, HTMLLexicalError),
    /// Fail with the error.
    Emit(HTMLLexicalError),
}

/// The tokenizer: the input stream, the optional in-progress token, the
/// running position, and the current state.
pub struct HTMLTokenizer<T> {
    pub input: InputStream<T>,
    /// The token under construction, mutated as the states progress.
    pub current_token: Option<HTMLToken>,
    /// The position of the unit being examined, advanced at each iteration.
    pub current_location: Location,
    /// The state the machine currently dispatches on.
    pub current_state: HTMLTokenizerState,
}

impl<T: UnitCodePointExt> HTMLTokenizer<T> {
    /// The input stream is internally coherent and its lookahead offset sits
    /// at the next unit to be consumed.
    pub open spec fn inv(&self) -> bool {
        self.input.wf() && self.input.peek_offset() == 0
    }

    /// The in-progress token, if any.
    pub open spec fn token_spec(&self) -> Option<TokenModel> {
        match self.current_token {
            Option::Some(t) => Option::Some(t@),
            Option::None => Option::None,
        }
    }

    /// The machine configuration: state, in-progress token, position, and
    /// what is still upcoming on the input.
    pub open spec fn machine(&self) -> MachineModel<T> {
        MachineModel {
            state: self.current_state,
            token: self.token_spec(),
            location: self.current_location,
            upcoming: self.input.upcoming(),
        }
    }

    /// The input stream's upcoming/consumed split.
    pub open spec fn stream(&self) -> StreamModel<T> {
        self.input.model()
    }

    /// A tokenizer over the given sequence of code units, positioned at its
    /// start, in the data state, with no token in progress.
    pub fn new(input: Vec<T>) -> (r: Self)
        ensures
            r.inv(),
            r.machine() == (MachineModel {
                state: HTMLTokenizerState::Data,
                token: Option::<TokenModel>::None,
                location: Location::spec_new(),
                upcoming: input@,
            }),
            r.stream() == (StreamModel { upcoming: input@, consumed: Seq::<T>::empty() }),
    {
        Self {
            input: InputStream::new(input),
            current_token: Option::None,
            current_location: Location::new(),
            current_state: HTMLTokenizerState::Data,
        }
    }

    /// Applies one accumulation operation to the in-progress token: a missing
    /// token, and any token that is not a tag, is left unchanged.
    fn apply_mutation(&mut self, mutation: HTMLTagMutation)
        requires
            old(self).inv(),
        ensures
            final(self).inv(),
            final(self).machine() == (MachineModel {
                token: spec_apply_mutation(old(self).token_spec(), mutation),
                ..old(self).machine()
            }),
    {
        let taken = self.current_token.take();
        match taken {
            Option::Some(mut t) => {
                let is_tag = match &t.lexeme {
                    HTMLLexeme::Tag { .. } => true,
                    _ => false,
                };
                if is_tag {
                    match mutation {
                        HTMLTagMutation::AddCharacterToTagName(ch) => t.add_character_to_tag_name(
                            ch,
                        ),
                        HTMLTagMutation::AddCharacterToLastAttributeName(ch) =>
                            t.add_character_to_last_attribute_name_of_tag(ch),
                        HTMLTagMutation::AddCharacterToLastAttributeValue(ch) =>
                            t.add_character_to_last_attribute_value_of_tag(ch),
                        HTMLTagMutation::StartEmptyAttribute => t.start_empty_attribute_for_tag(),
                        HTMLTagMutation::StartAttributeWith(ch) => t.start_attribute_tag_with(ch),
                    }
                }
                self.current_token = Option::Some(t);
            },
            Option::None => {
                self.current_token = Option::None;
            },
        }
    }

    /// Produces the next token or tokens: transitions run until one or more
    /// tokens can be returned, together with the lexical errors recovered from
    /// on the way, or until a fatal condition aborts the call with an error.
    /// The call follows the model's transitions exactly.
    pub fn consume_next(&mut self) -> (r: Result<
        (Vec<HTMLToken>, Vec<HTMLLexicalError>),
        HTMLLexicalError,
    >)
        requires
            old(self).inv(),
        ensures
            final(self).inv(),
            final(self).machine() == spec_call_machine(old(self).machine()),
            match (r, spec_call_outcome(old(self).machine())) {
                (Ok((tokens, errors)), Ok((expected_tokens, expected_errors))) => {
                    &&& spec_tokens_view(tokens@) == expected_tokens
                    &&& errors@ == expected_errors
                },
                (Err(error), Err(expected_error)) => error == expected_error,
                _ => false,
            },
    {
        self.current_location.begin_span();
        let mut errors: Vec<HTMLLexicalError> = Vec::new();
        let ghost m0 = spec_align(old(self).machine());
        proof {
            assert(self.machine() == m0);
        }
        loop
            invariant
                self.inv(),
                m0 == spec_align(old(self).machine()),
                spec_consume_next(m0, Seq::<HTMLLexicalError>::empty()) == spec_consume_next(
                    self.machine(),
                    errors@,
                ),
            decreases self.machine().upcoming.len(), crate::lexical::model::spec_rank(
                self.machine(),
            ),
        {
            let ghost m_iter = self.machine();
            match self.input.peek_next() {
                Option::Some(cp) => {
                    if cp.is__tab() {
                        self.current_location.increment_column_by(4);
                    } else if cp.is__linefeed() {
                        self.current_location.increment_line();
                        self.current_location.reset_column();
                    } else if !cp.is__carriage_return() {
                        self.current_location.increment_column();
                    }
                },
                Option::None => {},
            }
            let ghost loc = crate::lexical::model::spec_advance_location(
                m_iter.location,
                if m_iter.upcoming.len() > 0 {
                    Option::Some(m_iter.upcoming[0])
                } else {
                    Option::<T>::None
                },
            );
            proof {
                assert(self.machine() == (MachineModel { location: loc, ..m_iter }));
            }
            let state = self.current_state;
            let flow = match state {
                HTMLTokenizerState::Data => self.handle_data_state(),
                HTMLTokenizerState::TagOpen => self.handle_tag_open_state(),
                HTMLTokenizerState::EndTagOpen => self.handle_end_tag_open_state(),
                HTMLTokenizerState::TagName => self.handle_tag_name_state(),
                HTMLTokenizerState::BeforeAttributeName =>
                    self.handle_before_attribute_name_state(),
                HTMLTokenizerState::AttributeName => self.handle_attribute_name_state(),
                HTMLTokenizerState::AfterAttributeName => self.handle_after_attribute_name_state(),
                HTMLTokenizerState::BeforeAttributeValue =>
                    self.handle_before_attribute_value_state(),
                HTMLTokenizerState::AttributeValue { quote } => self.handle_attribute_value_state(
                    quote,
                ),
                HTMLTokenizerState::AfterAttributeValue { quote } =>
                    self.handle_after_attribute_value_state(quote),
                _ => {
                    // No handler is defined for these states in this subset:
                    // the call ends with the end-of-stream token.
                    let token = HTMLToken::end_of_stream().with_location(self.current_location);
                    let mut tokens: Vec<HTMLToken> = Vec::new();
                    tokens.push(token);
                    proof {
                        assert(m_iter.state == HTMLTokenizerState::MarkupDeclarationOpen
                            || m_iter.state == HTMLTokenizerState::BogusComment || m_iter.state
                            == HTMLTokenizerState::SelfClosingStartTag);
                        assert(spec_consume_next(m_iter, errors@) == (StepModel::<T> {
                            outcome: Ok(
                                (
                                    seq![
                                        TokenModel {
                                            lexeme: LexemeModel::EndOfStream,
                                            location: loc,
                                        },
                                    ],
                                    errors@,
                                ),
                            ),
                            machine: MachineModel { location: loc, ..m_iter },
                        }));
                        assert(spec_tokens_view(tokens@) =~= seq![
                            TokenModel { lexeme: LexemeModel::EndOfStream, location: loc },
                        ]);
                    }
                    return Ok((tokens, errors));
                },
            };
            match flow {
                ControlFlow::Continue(ok_flow) => match ok_flow {
                    HTMLTokenizerOk::Silent => {
                        proof {
                            assert(spec_consume_next(m_iter, errors@) == spec_consume_next(
                                self.machine(),
                                errors@,
                            ));
                        }
                    },
                    HTMLTokenizerOk::Update(token) => {
                        self.current_token = Option::Some(
                            token.with_location(self.current_location),
                        );
                        proof {
                            assert(spec_consume_next(m_iter, errors@) == spec_consume_next(
                                self.machine(),
                                errors@,
                            ));
                        }
                    },
                    HTMLTokenizerOk::Mutate(mutation) => {
                        self.apply_mutation(mutation);
                        proof {
                            assert(spec_consume_next(m_iter, errors@) == spec_consume_next(
                                self.machine(),
                                errors@,
                            ));
                        }
                    },
                    HTMLTokenizerOk::MutateWithError(mutation, error) => {
                        let ghost errors_pre = errors@;
                        errors.push(error.with_location(self.current_location));
                        self.apply_mutation(mutation);
                        proof {
                            assert(spec_consume_next(m_iter, errors_pre) == spec_consume_next(
                                self.machine(),
                                errors@,
                            ));
                        }
                    },
                    HTMLTokenizerOk::Emit(token) => {
                        let mut tokens: Vec<HTMLToken> = Vec::new();
                        tokens.push(token.with_location(self.current_location));
                        proof {
                            assert(spec_tokens_view(tokens@) =~= spec_consume_next(
                                m_iter,
                                errors@,
                            ).outcome->Ok_0.0);
                        }
                        return Ok((tokens, errors));
                    },
                    HTMLTokenizerOk::EmitCurrent => {
                        match &self.current_token {
                            Option::Some(t) => {
                                let mut tokens: Vec<HTMLToken> = Vec::new();
                                tokens.push(t.clone());
                                proof {
                                    assert(spec_tokens_view(tokens@) =~= spec_consume_next(
                                        m_iter,
                                        errors@,
                                    ).outcome->Ok_0.0);
                                }
                                return Ok((tokens, errors));
                            },
                            Option::None => {
                                return Err(
                                    HTMLLexicalError::idk().with_location(self.current_location),
                                );
                            },
                        }
                    },
                    HTMLTokenizerOk::EmitCurrentWithError(error) => {
                        errors.push(error.with_location(self.current_location));
                        match &self.current_token {
                            Option::Some(t) => {
                                let mut tokens: Vec<HTMLToken> = Vec::new();
                                tokens.push(t.clone());
                                proof {
                                    assert(spec_tokens_view(tokens@) =~= spec_consume_next(
                                        m_iter,
                                        errors@.drop_last(),
                                    ).outcome->Ok_0.0);
                                }
                                return Ok((tokens, errors));
                            },
                            Option::None => {
                                return Err(
                                    HTMLLexicalError::idk().with_location(self.current_location),
                                );
                            },
                        }
                    },
                    HTMLTokenizerOk::EmitWithError(token, error) => {
                        errors.push(error.with_location(self.current_location));
                        let mut tokens: Vec<HTMLToken> = Vec::new();
                        tokens.push(token.with_location(self.current_location));
                        proof {
                            assert(spec_tokens_view(tokens@) =~= spec_consume_next(
                                m_iter,
                                errors@.drop_last(),
                            ).outcome->Ok_0.0);
                        }
                        return Ok((tokens, errors));
                    },
                    HTMLTokenizerOk::ManyEmitWithError(tokens, error) => {
                        errors.push(error.with_location(self.current_location));
                        let ghost raw = tokens@;
                        let mut remaining = tokens;
                        let mut stamped: Vec<HTMLToken> = Vec::new();
                        while remaining.len() > 0
                            invariant
                                remaining@ == raw.skip(stamped@.len() as int),
                                stamped@.len() <= raw.len(),
                                forall|j: int|
                                    0 <= j < stamped@.len() ==> #[trigger] stamped@[j]@
                                        == (TokenModel { lexeme: raw[j]@.lexeme, location: loc }),
                                self.machine().location == loc,
                            decreases remaining@.len(),
                        {
                            let t = remaining.remove(0);
                            stamped.push(t.with_location(self.current_location));
                            proof {
                                assert(remaining@ =~= raw.skip(stamped@.len() as int));
                            }
                        }
                        proof {
                            let expected = spec_consume_next(
                                m_iter,
                                errors@.drop_last(),
                            ).outcome->Ok_0.0;
                            assert(spec_tokens_view(stamped@) =~= expected);
                        }
                        return Ok((stamped, errors));
                    },
                    HTMLTokenizerOk::Full { emit, update, error } => {
                        self.current_token = Option::Some(
                            update.with_location(self.current_location),
                        );
                        errors.push(error.with_location(self.current_location));
                        let mut tokens: Vec<HTMLToken> = Vec::new();
                        tokens.push(emit.with_location(self.current_location));
                        proof {
                            assert(spec_tokens_view(tokens@) =~= spec_consume_next(
                                m_iter,
                                errors@.drop_last(),
                            ).outcome->Ok_0.0);
                        }
                        return Ok((tokens, errors));
                    },
                },
                ControlFlow::Break(err_flow) => match err_flow {
                    HTMLTokenizerErr::Update(token, error) => {
                        self.current_token = Option::Some(token);
                        return Err(error.with_location(self.current_location));
                    },
                    HTMLTokenizerErr::Emit(error) => {
                        return Err(error.with_location(self.current_location));
                    },
                },
            }
        }
    }

    /// Rolls the just-consumed unit back by one position and switches state,
    /// so the same unit is re-examined under the new state.
    pub fn reconsume(&mut self, state: HTMLTokenizerState)
        requires
            old(self).inv(),
        ensures
            final(self).inv(),
            final(self).stream() == spec_rollback_step(old(self).stream()),
            final(self).machine() == (MachineModel {
                state,
                upcoming: spec_rollback_step(old(self).stream()).upcoming,
                ..old(self).machine()
            }),
    {
        self.input.rollback_once();
        self.current_state.switch(state);
    }
}

impl HTMLTokenizerState {
    /// Moves the machine to the given state.
    pub fn switch(&mut self, new_state: Self)
        ensures
            *final(self) == new_state,
    {
        *self = new_state;
    }
}

} // verus!
