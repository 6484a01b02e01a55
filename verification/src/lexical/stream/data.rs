//! The data-state handler: plain text content between tags.

use vstd::prelude::*;
use core::ops::ControlFlow;

use crate::codepoint::UnitCodePointExt;
use crate::lexical::error::HTMLLexicalError;
use crate::lexical::model::{
    flow_break_update_fresh, flow_effect, spec_data_state, MachineModel,
};
use crate::lexical::token::HTMLToken;
use crate::lexical::tokenizer::{
    HTMLTokenizer, HTMLTokenizerErr, HTMLTokenizerOk, HTMLTokenizerState,
};

verus! {

/// The handler of the data state.
pub trait HTMLTokenizerDataStream {
    /// The receiver is in a fit state to take input.
    spec fn ready(&self) -> bool;

    /// Consumes one unit (or observes the end of the input) in the data state
    /// and returns the effect for the dispatch loop to interpret.
    fn handle_data_state(&mut self) -> (r: ControlFlow<HTMLTokenizerErr, HTMLTokenizerOk>)
        requires
            old(self).ready(),
        ensures
            final(self).ready(),
    ;
}

impl<T: UnitCodePointExt> HTMLTokenizerDataStream for HTMLTokenizer<T> {
    open spec fn ready(&self) -> bool {
        self.inv()
    }

    fn handle_data_state(&mut self) -> (r: ControlFlow<HTMLTokenizerErr, HTMLTokenizerOk>)
        ensures
            old(self).current_state == HTMLTokenizerState::Data ==> ({
                let h = spec_data_state(old(self).machine().upcoming);
                &&& flow_effect(r) == h.effect
                &&& flow_break_update_fresh(r)
                &&& final(self).machine() == (MachineModel {
                    state: h.state,
                    upcoming: h.upcoming,
                    ..old(self).machine()
                })
            }),
    {
        match self.input.consume_next() {
            Option::Some(cp) => {
                if cp.is('&') {
                    // Character references are stubbed: `&` is passed over.
                    ControlFlow::Continue(HTMLTokenizerOk::Silent)
                } else if cp.is('<') {
                    self.current_state.switch(HTMLTokenizerState::TagOpen);
                    ControlFlow::Continue(HTMLTokenizerOk::Silent)
                } else if !cp.is__valid() {
                    ControlFlow::Break(
                        HTMLTokenizerErr::Emit(HTMLLexicalError::unexpected_null_character()),
                    )
                } else {
                    ControlFlow::Continue(HTMLTokenizerOk::Emit(HTMLToken::character(cp.unit())))
                }
            },
            Option::None => ControlFlow::Continue(
                HTMLTokenizerOk::Emit(HTMLToken::end_of_stream()),
            ),
        }
    }
}

} // verus!
