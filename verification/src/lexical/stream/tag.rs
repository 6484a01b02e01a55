//! The tag and attribute state handlers: tag open and close, tag name, and
//! attribute parsing with its three quoting modes.

use vstd::prelude::*;
use core::ops::ControlFlow;

use crate::codepoint::UnitCodePointExt;
use crate::lexical::error::HTMLLexicalError;
use crate::lexical::model::{
    flow_break_update_fresh, flow_effect, spec_after_attribute_name_state,
    spec_after_attribute_value_state, spec_attribute_name_state, spec_attribute_value_state,
    spec_before_attribute_name_state, spec_before_attribute_value_state, spec_end_tag_open_state,
    spec_tag_name_state, spec_tag_open_state, HandlerStep, MachineModel,
};
use crate::lexical::token::HTMLToken;
use crate::lexical::tokenizer::{
    HTMLTagMutation, HTMLTokenizer, HTMLTokenizerErr, HTMLTokenizerOk, HTMLTokenizerState,
};
use crate::codepoint::lowercase_ascii;

verus! {

/// The handlers of the tag and attribute states. Each consumes one unit (or
/// observes the end of the input) and returns the effect for the dispatch
/// loop to interpret; the contract of each, on its own state, is the
/// corresponding transition of the model.
pub trait HTMLTokenizerTagStream {
    /// The receiver is in a fit state to take input.
    spec fn tag_ready(&self) -> bool;

    fn handle_tag_open_state(&mut self) -> (r: ControlFlow<HTMLTokenizerErr, HTMLTokenizerOk>)
        requires
            old(self).tag_ready(),
        ensures
            final(self).tag_ready(),
    ;

    fn handle_end_tag_open_state(&mut self) -> (r: ControlFlow<HTMLTokenizerErr, HTMLTokenizerOk>)
        requires
            old(self).tag_ready(),
        ensures
            final(self).tag_ready(),
    ;

    fn handle_tag_name_state(&mut self) -> (r: ControlFlow<HTMLTokenizerErr, HTMLTokenizerOk>)
        requires
            old(self).tag_ready(),
        ensures
            final(self).tag_ready(),
    ;

    fn handle_before_attribute_name_state(&mut self) -> (r: ControlFlow<
        HTMLTokenizerErr,
        HTMLTokenizerOk,
    >)
        requires
            old(self).tag_ready(),
        ensures
            final(self).tag_ready(),
    ;

    fn handle_attribute_name_state(&mut self) -> (r: ControlFlow<
        HTMLTokenizerErr,
        HTMLTokenizerOk,
    >)
        requires
            old(self).tag_ready(),
        ensures
            final(self).tag_ready(),
    ;

    fn handle_after_attribute_name_state(&mut self) -> (r: ControlFlow<
        HTMLTokenizerErr,
        HTMLTokenizerOk,
    >)
        requires
            old(self).tag_ready(),
        ensures
            final(self).tag_ready(),
    ;

    fn handle_before_attribute_value_state(&mut self) -> (r: ControlFlow<
        HTMLTokenizerErr,
        HTMLTokenizerOk,
    >)
        requires
            old(self).tag_ready(),
        ensures
            final(self).tag_ready(),
    ;

    fn handle_attribute_value_state(&mut self, quote: Option<char>) -> (r: ControlFlow<
        HTMLTokenizerErr,
        HTMLTokenizerOk,
    >)
        requires
            old(self).tag_ready(),
        ensures
            final(self).tag_ready(),
    ;

    fn handle_after_attribute_value_state(&mut self, quote: Option<char>) -> (r: ControlFlow<
        HTMLTokenizerErr,
        HTMLTokenizerOk,
    >)
        requires
            old(self).tag_ready(),
        ensures
            final(self).tag_ready(),
    ;
}

impl<T: UnitCodePointExt> HTMLTokenizer<T> {
    /// The handler's contract: its returned flow means the step's effect, the
    /// machine moved to the step's state and upcoming units, and everything
    /// else stayed.
    pub open spec fn follows_step(
        self,
        pre: HTMLTokenizer<T>,
        r: ControlFlow<HTMLTokenizerErr, HTMLTokenizerOk>,
        h: HandlerStep<T>,
    ) -> bool {
        &&& flow_effect(r) == h.effect
        &&& flow_break_update_fresh(r)
        &&& self.machine() == (MachineModel { state: h.state, upcoming: h.upcoming, ..pre.machine() })
    }
}

impl<T: UnitCodePointExt> HTMLTokenizerTagStream for HTMLTokenizer<T> {
    open spec fn tag_ready(&self) -> bool {
        self.inv()
    }

    fn handle_tag_open_state(&mut self) -> (r: ControlFlow<HTMLTokenizerErr, HTMLTokenizerOk>)
        ensures
            old(self).current_state == HTMLTokenizerState::TagOpen ==> final(self).follows_step(
                *old(self),
                r,
                spec_tag_open_state(old(self).machine().upcoming),
            ),
    {
        let ghost up0 = self.input.upcoming();
        match self.input.consume_next() {
            Option::Some(cp) => {
                if cp.is('!') {
                    self.current_state.switch(HTMLTokenizerState::MarkupDeclarationOpen);
                    ControlFlow::Continue(HTMLTokenizerOk::Silent)
                } else if cp.is('/') {
                    self.current_state.switch(HTMLTokenizerState::EndTagOpen);
                    ControlFlow::Continue(HTMLTokenizerOk::Silent)
                } else if cp.is('?') {
                    self.reconsume(HTMLTokenizerState::BogusComment);
                    proof {
                        assert(self.input.upcoming() =~= up0);
                    }
                    ControlFlow::Break(
                        HTMLTokenizerErr::Update(
                            HTMLToken::empty_comment(),
                            HTMLLexicalError::unexpected_question_mark_instead_of_tag_name(),
                        ),
                    )
                } else if cp.is__alphabetic() {
                    self.reconsume(HTMLTokenizerState::TagName);
                    proof {
                        assert(self.input.upcoming() =~= up0);
                    }
                    ControlFlow::Continue(HTMLTokenizerOk::Update(HTMLToken::start_tag()))
                } else {
                    self.reconsume(HTMLTokenizerState::Data);
                    proof {
                        assert(self.input.upcoming() =~= up0);
                    }
                    ControlFlow::Continue(
                        HTMLTokenizerOk::EmitWithError(
                            HTMLToken::character('<'),
                            HTMLLexicalError::invalid_first_character_of_tag_name(cp.unit()),
                        ),
                    )
                }
            },
            Option::None => ControlFlow::Continue(
                HTMLTokenizerOk::Full {
                    emit: HTMLToken::character('<'),
                    update: HTMLToken::end_of_stream(),
                    error: HTMLLexicalError::end_of_stream_before_tag_name(),
                },
            ),
        }
    }

    fn handle_end_tag_open_state(&mut self) -> (r: ControlFlow<HTMLTokenizerErr, HTMLTokenizerOk>)
        ensures
            old(self).current_state == HTMLTokenizerState::EndTagOpen ==> final(self).follows_step(
                *old(self),
                r,
                spec_end_tag_open_state(old(self).machine().upcoming),
            ),
    {
        let ghost up0 = self.input.upcoming();
        match self.input.consume_next() {
            Option::Some(cp) => {
                if cp.is__alphabetic() {
                    self.reconsume(HTMLTokenizerState::TagName);
                    proof {
                        assert(self.input.upcoming() =~= up0);
                    }
                    ControlFlow::Continue(HTMLTokenizerOk::Update(HTMLToken::end_tag()))
                } else if cp.is('>') {
                    self.current_state.switch(HTMLTokenizerState::Data);
                    ControlFlow::Break(
                        HTMLTokenizerErr::Emit(HTMLLexicalError::missing_end_tag_name()),
                    )
                } else {
                    self.reconsume(HTMLTokenizerState::BogusComment);
                    proof {
                        assert(self.input.upcoming() =~= up0);
                    }
                    ControlFlow::Break(
                        HTMLTokenizerErr::Update(
                            HTMLToken::empty_comment(),
                            HTMLLexicalError::invalid_first_character_of_tag_name(cp.unit()),
                        ),
                    )
                }
            },
            Option::None => {
                let mut tokens: Vec<HTMLToken> = Vec::new();
                tokens.push(HTMLToken::character('<'));
                tokens.push(HTMLToken::character('/'));
                tokens.push(HTMLToken::end_of_stream());
                proof {
                    assert(tokens@.map_values(|t: HTMLToken| t@.lexeme) =~= seq![
                        crate::lexical::lexeme::LexemeModel::Character('<'),
                        crate::lexical::lexeme::LexemeModel::Character('/'),
                        crate::lexical::lexeme::LexemeModel::EndOfStream,
                    ]);
                }
                ControlFlow::Continue(
                    HTMLTokenizerOk::ManyEmitWithError(
                        tokens,
                        HTMLLexicalError::end_of_stream_before_tag_name(),
                    ),
                )
            },
        }
    }

    fn handle_tag_name_state(&mut self) -> (r: ControlFlow<HTMLTokenizerErr, HTMLTokenizerOk>)
        ensures
            old(self).current_state == HTMLTokenizerState::TagName ==> final(self).follows_step(
                *old(self),
                r,
                spec_tag_name_state(old(self).machine().upcoming),
            ),
    {
        match self.input.consume_next() {
            Option::Some(cp) => {
                if cp.is__whitespace() {
                    self.current_state.switch(HTMLTokenizerState::BeforeAttributeName);
                    ControlFlow::Continue(HTMLTokenizerOk::Silent)
                } else if cp.is('/') {
                    self.current_state.switch(HTMLTokenizerState::SelfClosingStartTag);
                    ControlFlow::Continue(HTMLTokenizerOk::Silent)
                } else if cp.is('>') {
                    self.current_state.switch(HTMLTokenizerState::Data);
                    ControlFlow::Continue(HTMLTokenizerOk::EmitCurrent)
                } else if cp.is__upper_alphabetic() {
                    ControlFlow::Continue(
                        HTMLTokenizerOk::Mutate(
                            HTMLTagMutation::AddCharacterToTagName(lowercase_ascii(cp.unit())),
                        ),
                    )
                } else if !cp.is__valid() {
                    ControlFlow::Continue(
                        HTMLTokenizerOk::MutateWithError(
                            HTMLTagMutation::AddCharacterToTagName('\u{FFFD}'),
                            HTMLLexicalError::unexpected_null_character(),
                        ),
                    )
                } else {
                    ControlFlow::Continue(
                        HTMLTokenizerOk::Mutate(HTMLTagMutation::AddCharacterToTagName(cp.unit())),
                    )
                }
            },
            Option::None => ControlFlow::Continue(
                HTMLTokenizerOk::EmitWithError(
                    HTMLToken::end_of_stream(),
                    HTMLLexicalError::end_of_stream_in_tag(),
                ),
            ),
        }
    }

    fn handle_before_attribute_name_state(&mut self) -> (r: ControlFlow<
        HTMLTokenizerErr,
        HTMLTokenizerOk,
    >)
        ensures
            old(self).current_state == HTMLTokenizerState::BeforeAttributeName ==> final(self).follows_step(
                *old(self),
                r,
                spec_before_attribute_name_state(old(self).machine().upcoming),
            ),
    {
        let ghost up0 = self.input.upcoming();
        match self.input.consume_next() {
            Option::Some(cp) => {
                if cp.is__whitespace() {
                    ControlFlow::Continue(HTMLTokenizerOk::Silent)
                } else if cp.is('/') || cp.is('>') {
                    self.reconsume(HTMLTokenizerState::AfterAttributeName);
                    proof {
                        assert(self.input.upcoming() =~= up0);
                    }
                    ControlFlow::Continue(HTMLTokenizerOk::Silent)
                } else if cp.is('=') {
                    self.current_state.switch(HTMLTokenizerState::AttributeName);
                    ControlFlow::Continue(
                        HTMLTokenizerOk::MutateWithError(
                            HTMLTagMutation::StartAttributeWith(cp.unit()),
                            HTMLLexicalError::unexpected_equals_sign_before_attribute_name(),
                        ),
                    )
                } else {
                    self.reconsume(HTMLTokenizerState::AttributeName);
                    proof {
                        assert(self.input.upcoming() =~= up0);
                    }
                    ControlFlow::Continue(
                        HTMLTokenizerOk::Mutate(HTMLTagMutation::StartEmptyAttribute),
                    )
                }
            },
            Option::None => {
                // At the end of the input nothing was consumed, so there is
                // nothing to roll back: only the state moves on.
                self.current_state.switch(HTMLTokenizerState::AfterAttributeName);
                ControlFlow::Continue(HTMLTokenizerOk::Silent)
            },
        }
    }

    fn handle_attribute_name_state(&mut self) -> (r: ControlFlow<
        HTMLTokenizerErr,
        HTMLTokenizerOk,
    >)
        ensures
            old(self).current_state == HTMLTokenizerState::AttributeName ==> final(self).follows_step(
                *old(self),
                r,
                spec_attribute_name_state(old(self).machine().upcoming),
            ),
    {
        let ghost up0 = self.input.upcoming();
        match self.input.consume_next() {
            Option::Some(cp) => {
                if cp.is__whitespace() || cp.is('/') || cp.is('>') {
                    self.reconsume(HTMLTokenizerState::AfterAttributeName);
                    proof {
                        assert(self.input.upcoming() =~= up0);
                    }
                    ControlFlow::Continue(HTMLTokenizerOk::Silent)
                } else if cp.is('=') {
                    self.current_state.switch(HTMLTokenizerState::BeforeAttributeValue);
                    ControlFlow::Continue(HTMLTokenizerOk::Silent)
                } else if cp.is__upper_alphabetic() {
                    ControlFlow::Continue(
                        HTMLTokenizerOk::Mutate(
                            HTMLTagMutation::AddCharacterToLastAttributeName(
                                lowercase_ascii(cp.unit()),
                            ),
                        ),
                    )
                } else if !cp.is__valid() {
                    ControlFlow::Continue(
                        HTMLTokenizerOk::MutateWithError(
                            HTMLTagMutation::AddCharacterToLastAttributeName('\u{FFFD}'),
                            HTMLLexicalError::unexpected_null_character(),
                        ),
                    )
                } else if cp.is('\u{22}') || cp.is('\u{27}') || cp.is('<') {
                    ControlFlow::Continue(
                        HTMLTokenizerOk::MutateWithError(
                            HTMLTagMutation::AddCharacterToLastAttributeName(cp.unit()),
                            HTMLLexicalError::unexpected_character_in_attribute(cp.unit()),
                        ),
                    )
                } else {
                    ControlFlow::Continue(
                        HTMLTokenizerOk::Mutate(
                            HTMLTagMutation::AddCharacterToLastAttributeName(cp.unit()),
                        ),
                    )
                }
            },
            Option::None => {
                // Nothing was consumed at the end of the input, so only the
                // state moves on.
                self.current_state.switch(HTMLTokenizerState::AfterAttributeName);
                ControlFlow::Continue(HTMLTokenizerOk::Silent)
            },
        }
    }

    fn handle_after_attribute_name_state(&mut self) -> (r: ControlFlow<
        HTMLTokenizerErr,
        HTMLTokenizerOk,
    >)
        ensures
            old(self).current_state == HTMLTokenizerState::AfterAttributeName ==> final(self).follows_step(
                *old(self),
                r,
                spec_after_attribute_name_state(old(self).machine().upcoming),
            ),
    {
        let ghost up0 = self.input.upcoming();
        match self.input.consume_next() {
            Option::Some(cp) => {
                if cp.is__whitespace() {
                    ControlFlow::Continue(HTMLTokenizerOk::Silent)
                } else if cp.is('/') {
                    self.current_state.switch(HTMLTokenizerState::SelfClosingStartTag);
                    ControlFlow::Continue(HTMLTokenizerOk::Silent)
                } else if cp.is('=') {
                    self.current_state.switch(HTMLTokenizerState::BeforeAttributeValue);
                    ControlFlow::Continue(HTMLTokenizerOk::Silent)
                } else if cp.is('>') {
                    self.current_state.switch(HTMLTokenizerState::Data);
                    ControlFlow::Continue(HTMLTokenizerOk::EmitCurrent)
                } else {
                    self.reconsume(HTMLTokenizerState::AttributeName);
                    proof {
                        assert(self.input.upcoming() =~= up0);
                    }
                    ControlFlow::Continue(
                        HTMLTokenizerOk::Mutate(HTMLTagMutation::StartEmptyAttribute),
                    )
                }
            },
            Option::None => ControlFlow::Continue(
                HTMLTokenizerOk::EmitWithError(
                    HTMLToken::end_of_stream(),
                    HTMLLexicalError::end_of_stream_in_tag(),
                ),
            ),
        }
    }

    fn handle_before_attribute_value_state(&mut self) -> (r: ControlFlow<
        HTMLTokenizerErr,
        HTMLTokenizerOk,
    >)
        ensures
            old(self).current_state == HTMLTokenizerState::BeforeAttributeValue ==> final(self).follows_step(
                *old(self),
                r,
                spec_before_attribute_value_state(old(self).machine().upcoming),
            ),
    {
        let ghost up0 = self.input.upcoming();
        match self.input.consume_next() {
            Option::Some(cp) => {
                if cp.is__whitespace() {
                    ControlFlow::Continue(HTMLTokenizerOk::Silent)
                } else if cp.is('\u{22}') || cp.is('\u{27}') {
                    self.current_state.switch(
                        HTMLTokenizerState::AttributeValue { quote: Option::Some(cp.unit()) },
                    );
                    ControlFlow::Continue(HTMLTokenizerOk::Silent)
                } else if cp.is('>') {
                    self.current_state.switch(HTMLTokenizerState::Data);
                    ControlFlow::Continue(
                        HTMLTokenizerOk::EmitCurrentWithError(
                            HTMLLexicalError::missing_attribute_value(),
                        ),
                    )
                } else {
                    self.reconsume(HTMLTokenizerState::AttributeValue { quote: Option::None });
                    proof {
                        assert(self.input.upcoming() =~= up0);
                    }
                    ControlFlow::Continue(HTMLTokenizerOk::Silent)
                }
            },
            Option::None => {
                // Nothing was consumed at the end of the input, so only the
                // state moves on.
                self.current_state.switch(
                    HTMLTokenizerState::AttributeValue { quote: Option::None },
                );
                ControlFlow::Continue(HTMLTokenizerOk::Silent)
            },
        }
    }

    fn handle_attribute_value_state(&mut self, quote: Option<char>) -> (r: ControlFlow<
        HTMLTokenizerErr,
        HTMLTokenizerOk,
    >)
        ensures
            old(self).current_state == (HTMLTokenizerState::AttributeValue { quote }) ==> final(self).follows_step(
                *old(self),
                r,
                spec_attribute_value_state(quote, old(self).machine().upcoming),
            ),
    {
        if let Option::Some(quoted) = quote {
            match self.input.consume_next() {
                Option::Some(cp) => {
                    if cp.unit() == quoted {
                        self.current_state.switch(
                            HTMLTokenizerState::AfterAttributeValue { quote },
                        );
                        ControlFlow::Continue(HTMLTokenizerOk::Silent)
                    } else if !cp.is__valid() {
                        ControlFlow::Continue(
                            HTMLTokenizerOk::MutateWithError(
                                HTMLTagMutation::AddCharacterToLastAttributeValue('\u{FFFD}'),
                                HTMLLexicalError::unexpected_null_character(),
                            ),
                        )
                    } else {
                        ControlFlow::Continue(
                            HTMLTokenizerOk::Mutate(
                                HTMLTagMutation::AddCharacterToLastAttributeValue(cp.unit()),
                            ),
                        )
                    }
                },
                Option::None => ControlFlow::Continue(
                    HTMLTokenizerOk::EmitWithError(
                        HTMLToken::end_of_stream(),
                        HTMLLexicalError::end_of_stream_in_tag(),
                    ),
                ),
            }
        } else {
            match self.input.consume_next() {
                Option::Some(cp) => {
                    if cp.is__whitespace() {
                        self.current_state.switch(HTMLTokenizerState::BeforeAttributeName);
                        ControlFlow::Continue(HTMLTokenizerOk::Silent)
                    } else if cp.is('>') {
                        self.current_state.switch(HTMLTokenizerState::Data);
                        ControlFlow::Continue(HTMLTokenizerOk::EmitCurrent)
                    } else if !cp.is__valid() {
                        ControlFlow::Continue(
                            HTMLTokenizerOk::MutateWithError(
                                HTMLTagMutation::AddCharacterToLastAttributeValue('\u{FFFD}'),
                                HTMLLexicalError::unexpected_null_character(),
                            ),
                        )
                    } else if cp.is('\u{22}') || cp.is('\u{27}') || cp.is('<') || cp.is('=')
                        || cp.is('\u{60}') {
                        ControlFlow::Continue(
                            HTMLTokenizerOk::MutateWithError(
                                HTMLTagMutation::AddCharacterToLastAttributeValue(cp.unit()),
                                HTMLLexicalError::unexpected_character_in_unquoted_attribute_value(
                                    cp.unit(),
                                ),
                            ),
                        )
                    } else {
                        ControlFlow::Continue(
                            HTMLTokenizerOk::Mutate(
                                HTMLTagMutation::AddCharacterToLastAttributeValue(cp.unit()),
                            ),
                        )
                    }
                },
                Option::None => ControlFlow::Continue(
                    HTMLTokenizerOk::EmitWithError(
                        HTMLToken::end_of_stream(),
                        HTMLLexicalError::end_of_stream_in_tag(),
                    ),
                ),
            }
        }
    }

    fn handle_after_attribute_value_state(&mut self, quote: Option<char>) -> (r: ControlFlow<
        HTMLTokenizerErr,
        HTMLTokenizerOk,
    >)
        ensures
            old(self).current_state == (HTMLTokenizerState::AfterAttributeValue { quote })
                ==> final(self).follows_step(
                *old(self),
                r,
                spec_after_attribute_value_state(quote, old(self).machine().upcoming),
            ),
    {
        let ghost up0 = self.input.upcoming();
        match self.input.consume_next() {
            Option::Some(cp) => {
                if cp.is__whitespace() {
                    self.current_state.switch(HTMLTokenizerState::BeforeAttributeName);
                    ControlFlow::Continue(HTMLTokenizerOk::Silent)
                } else if cp.is('/') {
                    self.current_state.switch(HTMLTokenizerState::SelfClosingStartTag);
                    ControlFlow::Continue(HTMLTokenizerOk::Silent)
                } else if cp.is('>') {
                    self.current_state.switch(HTMLTokenizerState::Data);
                    ControlFlow::Continue(HTMLTokenizerOk::EmitCurrent)
                } else {
                    self.reconsume(HTMLTokenizerState::BeforeAttributeName);
                    proof {
                        assert(self.input.upcoming() =~= up0);
                    }
                    ControlFlow::Break(
                        HTMLTokenizerErr::Emit(
                            HTMLLexicalError::missing_whitespace_between_attributes(),
                        ),
                    )
                }
            },
            Option::None => ControlFlow::Continue(
                HTMLTokenizerOk::EmitWithError(
                    HTMLToken::end_of_stream(),
                    HTMLLexicalError::end_of_stream_in_tag(),
                ),
            ),
        }
    }
}

} // verus!
