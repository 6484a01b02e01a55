//! The outer parser: repeatedly asks the tokenizer for tokens, accumulates
//! them in input order, stops at the end-of-stream token, and propagates the
//! first fatal lexical error. It performs no grammar logic of its own.

use vstd::prelude::*;

use crate::codepoint::UnitCodePointExt;
use crate::lexical::error::HTMLLexicalError;
use crate::lexical::model::{spec_align, spec_call, spec_tokens_view, MachineModel};
use crate::lexical::lexeme::LexemeModel;
use crate::lexical::token::{HTMLToken, TokenModel};
use crate::lexical::tokenizer::{HTMLTokenizer, HTMLTokenizerState};
use crate::location::Location;

verus! {

/// What stops a parse: a fatal lexical error of the tokenizer.
#[derive(Debug)]
pub enum HTMLParserError {
    Lexical(HTMLLexicalError),
}

/// The tokens of `tokens` before its first end-of-stream token; all of them
/// when none occurs.
pub open spec fn spec_before_end_of_stream(tokens: Seq<TokenModel>) -> Seq<TokenModel>
    decreases tokens.len(),
{
    if tokens.len() == 0 {
        tokens
    } else if tokens[0].lexeme is EndOfStream {
        Seq::empty()
    } else {
        seq![tokens[0]] + spec_before_end_of_stream(tokens.skip(1))
    }
}

/// Does an end-of-stream token occur in `tokens`?
pub open spec fn spec_contains_end_of_stream(tokens: Seq<TokenModel>) -> bool {
    exists|i: int| 0 <= i < tokens.len() && tokens[i].lexeme is EndOfStream
}

/// What driving the tokenizer for a number of calls yields.
pub enum ParseRunModel<T> {
    /// An end-of-stream token came: the tokens of every call in input order,
    /// up to and without that token.
    Done(Seq<TokenModel>),
    /// A call aborted with this fatal error.
    Failed(HTMLLexicalError),
    /// The given calls all returned tokens and none reached the end of the
    /// stream: the tokens collected so far, and the configuration reached.
    Unfinished(Seq<TokenModel>, MachineModel<T>),
}

/// Driving the tokenizer from configuration `m` for at most `fuel` calls.
pub open spec fn spec_parse_run<T: UnitCodePointExt>(
    m: MachineModel<T>,
    fuel: nat,
) -> ParseRunModel<T>
    decreases fuel,
{
    if fuel == 0 {
        ParseRunModel::Unfinished(Seq::empty(), m)
    } else {
        let step = spec_call(m);
        match step.outcome {
            Err(e) => ParseRunModel::Failed(e),
            Ok((tokens, _errors)) => {
                if spec_contains_end_of_stream(tokens) {
                    ParseRunModel::Done(spec_before_end_of_stream(tokens))
                } else {
                    match spec_parse_run(step.machine, (fuel - 1) as nat) {
                        ParseRunModel::Done(rest) => ParseRunModel::Done(tokens + rest),
                        ParseRunModel::Failed(e) => ParseRunModel::Failed(e),
                        ParseRunModel::Unfinished(rest, reached) => ParseRunModel::Unfinished(
                            tokens + rest,
                            reached,
                        ),
                    }
                }
            },
        }
    }
}

/// A unit of plain text: not a tag opener, not a character-reference start,
/// and not the NUL code point.
pub open spec fn spec_is_text_unit<T: UnitCodePointExt>(u: T) -> bool {
    !u.matches_char('<') && !u.matches_char('&') && !u.matches_char('\u{00}')
}

/// Tokenizing plain text: on an input with no `<`, no `&` and no NUL, the
/// parse yields exactly one character token per input unit, in input order,
/// with each token's span beginning where the span before it ended, followed
/// only by the end of the stream.
pub proof fn lemma_text_only_tokens<T: UnitCodePointExt>(m: MachineModel<T>, fuel: nat)
    requires
        m.state is Data,
        fuel > m.upcoming.len(),
        forall|i: int| 0 <= i < m.upcoming.len() ==> spec_is_text_unit(#[trigger] m.upcoming[i]),
    ensures
        ({
            let run = spec_parse_run(m, fuel);
            &&& run is Done
            &&& run->Done_0.len() == m.upcoming.len()
            &&& forall|i: int|
                0 <= i < m.upcoming.len() ==> (#[trigger] run->Done_0[i]).lexeme
                    == LexemeModel::Character(m.upcoming[i].to_unit())
            &&& (run->Done_0.len() > 0 ==> run->Done_0[0].location.start == m.location.end)
            &&& forall|i: int|
                1 <= i < m.upcoming.len() ==> (#[trigger] run->Done_0[i]).location.start
                    == run->Done_0[i - 1].location.end
            &&& forall|i: int|
                0 <= i < m.upcoming.len() ==> (#[trigger] run->Done_0[i]).location.start
                    <= run->Done_0[i].location.end
        }),
    decreases m.upcoming.len(),
{
    let aligned = spec_align(m);
    let step = spec_call(m);
    if m.upcoming.len() == 0 {
        let tokens = step.outcome->Ok_0.0;
        assert(tokens[0].lexeme is EndOfStream);
        assert(spec_contains_end_of_stream(tokens));
        assert(spec_before_end_of_stream(tokens) =~= Seq::<TokenModel>::empty());
    } else {
        let u = m.upcoming[0];
        let loc1 = crate::lexical::model::spec_advance_location(
            aligned.location,
            Option::Some(u),
        );
        let tokens = step.outcome->Ok_0.0;
        assert(tokens.len() == 1 && tokens[0].lexeme == LexemeModel::Character(u.to_unit()));
        assert(!spec_contains_end_of_stream(tokens)) by {
            assert(forall|i: int|
                0 <= i < tokens.len() ==> !((#[trigger] tokens[i]).lexeme is EndOfStream));
        };
        let m1 = step.machine;
        assert(m1.upcoming == m.upcoming.skip(1));
        assert(forall|i: int|
            0 <= i < m1.upcoming.len() ==> spec_is_text_unit(#[trigger] m1.upcoming[i])) by {
            assert(forall|i: int|
                0 <= i < m1.upcoming.len() ==> m1.upcoming[i] == m.upcoming[i + 1]);
        };
        lemma_text_only_tokens(m1, (fuel - 1) as nat);
        let rest = spec_parse_run(m1, (fuel - 1) as nat)->Done_0;
        let run = spec_parse_run(m, fuel);
        assert(run->Done_0 == tokens + rest);
        assert forall|i: int| 0 <= i < m.upcoming.len() implies (
        #[trigger] run->Done_0[i]).lexeme == LexemeModel::Character(m.upcoming[i].to_unit()) by {
            if i == 0 {
                assert(run->Done_0[0] == tokens[0]);
            } else {
                assert(run->Done_0[i] == rest[i - 1]);
                assert(m1.upcoming[i - 1] == m.upcoming[i]);
            }
        };
        assert(run->Done_0[0].location == loc1);
        assert(loc1.start == m.location.end);
        assert(loc1.start <= loc1.end);
        assert forall|i: int| 1 <= i < m.upcoming.len() implies (
        #[trigger] run->Done_0[i]).location.start == run->Done_0[i - 1].location.end by {
            if i == 1 {
                assert(run->Done_0[1] == rest[0]);
                assert(rest.len() > 0 ==> rest[0].location.start == m1.location.end);
                assert(m1.location == loc1);
            } else {
                assert(run->Done_0[i] == rest[i - 1]);
                assert(run->Done_0[i - 1] == rest[i - 2]);
            }
        };
        assert forall|i: int| 0 <= i < m.upcoming.len() implies (
        #[trigger] run->Done_0[i]).location.start <= run->Done_0[i].location.end by {
            if i > 0 {
                assert(run->Done_0[i] == rest[i - 1]);
            }
        };
    }
}

/// With no end-of-stream token among `tokens`, all of them come before it.
proof fn lemma_before_end_of_stream_all(tokens: Seq<TokenModel>)
    requires
        !spec_contains_end_of_stream(tokens),
    ensures
        spec_before_end_of_stream(tokens) == tokens,
    decreases tokens.len(),
{
    if tokens.len() > 0 {
        assert(!(tokens[0].lexeme is EndOfStream));
        assert(forall|j: int|
            0 <= j < tokens.skip(1).len() ==> tokens.skip(1)[j] == tokens[j + 1]);
        lemma_before_end_of_stream_all(tokens.skip(1));
        assert(spec_before_end_of_stream(tokens) =~= tokens);
    }
}

/// With the first end-of-stream token of `tokens` at index `i`, what comes
/// before it is exactly the first `i` tokens.
proof fn lemma_before_end_of_stream_take(tokens: Seq<TokenModel>, i: int)
    requires
        0 <= i < tokens.len(),
        tokens[i].lexeme is EndOfStream,
        forall|j: int| 0 <= j < i ==> !(#[trigger] tokens[j].lexeme is EndOfStream),
    ensures
        spec_contains_end_of_stream(tokens),
        spec_before_end_of_stream(tokens) == tokens.take(i),
    decreases i,
{
    if i == 0 {
        assert(spec_before_end_of_stream(tokens) =~= tokens.take(0));
    } else {
        assert(forall|j: int|
            0 <= j < tokens.skip(1).len() ==> tokens.skip(1)[j] == tokens[j + 1]);
        lemma_before_end_of_stream_take(tokens.skip(1), i - 1);
        assert(spec_before_end_of_stream(tokens) =~= tokens.take(i));
    }
}

/// A thin collaborator over the tokenizer: collects its tokens until the end
/// of the stream.
pub struct HTMLParser<T> {
    pub tokenizer: HTMLTokenizer<T>,
}

impl<T: UnitCodePointExt> HTMLParser<T> {
    /// The parser's tokenizer is in a fit state to take input.
    pub open spec fn inv(&self) -> bool {
        self.tokenizer.inv()
    }

    /// A parser over the given sequence of code units, positioned at its
    /// start.
    pub fn new(input: Vec<T>) -> (r: Self)
        ensures
            r.inv(),
            r.tokenizer.machine() == (MachineModel {
                state: HTMLTokenizerState::Data,
                token: Option::<TokenModel>::None,
                location: Location::spec_new(),
                upcoming: input@,
            }),
    {
        let tokenizer = HTMLTokenizer::new(input);
        Self { tokenizer }
    }

    /// Collects tokens in input order until the tokenizer reports the end of
    /// the stream, propagating the first fatal lexical error instead: exactly
    /// what driving the model does. The number of tokenizer calls is bounded
    /// by the greatest machine integer, a bound no input that reaches the end
    /// of its stream comes near.
    pub fn parse(self) -> (r: Result<Vec<HTMLToken>, HTMLParserError>)
        requires
            self.inv(),
        ensures
            ({
                let run = spec_parse_run(self.tokenizer.machine(), usize::MAX as nat);
                match r {
                    Ok(tokens) => match run {
                        ParseRunModel::Done(expected) => spec_tokens_view(tokens@) == expected,
                        ParseRunModel::Unfinished(expected, _) => spec_tokens_view(tokens@)
                            == expected,
                        ParseRunModel::Failed(_) => false,
                    },
                    Err(e) => match (e, run) {
                        (HTMLParserError::Lexical(lexical), ParseRunModel::Failed(expected)) =>
                            lexical == expected,
                        _ => false,
                    },
                }
            }),
    {
        let ghost m0 = self.tokenizer.machine();
        let ghost budget = usize::MAX as nat;
        let mut this = self;
        let mut ret_tokens: Vec<HTMLToken> = Vec::new();
        let mut fuel: usize = usize::MAX;
        proof {
            assert(spec_tokens_view(ret_tokens@) =~= Seq::<TokenModel>::empty());
        }
        while fuel > 0
            invariant
                this.tokenizer.inv(),
                m0 == self.tokenizer.machine(),
                budget == usize::MAX as nat,
                ({
                    let acc = spec_tokens_view(ret_tokens@);
                    match spec_parse_run(this.tokenizer.machine(), fuel as nat) {
                        ParseRunModel::Done(rest) => spec_parse_run(m0, budget)
                            == ParseRunModel::<T>::Done(acc + rest),
                        ParseRunModel::Failed(e) => spec_parse_run(m0, budget)
                            == ParseRunModel::<T>::Failed(e),
                        ParseRunModel::Unfinished(rest, reached) => spec_parse_run(m0, budget)
                            == ParseRunModel::<T>::Unfinished(acc + rest, reached),
                    }
                }),
            decreases fuel,
        {
            let ghost m_call = this.tokenizer.machine();
            let ghost acc = spec_tokens_view(ret_tokens@);
            match this.tokenizer.consume_next() {
                Err(e) => {
                    return Err(HTMLParserError::Lexical(e));
                },
                Ok((tokens, _recovered)) => {
                    let ghost produced = spec_tokens_view(tokens@);
                    let mut remaining = tokens;
                    let total = remaining.len();
                    let mut taken: usize = 0;
                    let mut found_end = false;
                    loop
                        invariant_except_break
                            produced.len() == total,
                            0 <= taken <= produced.len(),
                            spec_tokens_view(remaining@) == produced.skip(taken as int),
                            spec_tokens_view(ret_tokens@) == acc + produced.take(taken as int),
                            !found_end,
                            forall|j: int|
                                0 <= j < taken ==> !(#[trigger] produced[j].lexeme is EndOfStream),
                        ensures
                            (found_end && spec_contains_end_of_stream(produced)
                                && spec_tokens_view(ret_tokens@) == acc + spec_before_end_of_stream(
                                produced,
                            )) || (!found_end && !spec_contains_end_of_stream(produced)
                                && spec_tokens_view(ret_tokens@) == acc + produced),
                        decreases remaining@.len(),
                    {
                        if remaining.len() == 0 {
                            proof {
                                assert(produced.skip(taken as int).len() == 0);
                                lemma_before_end_of_stream_all(produced);
                                assert(produced.take(taken as int) =~= produced);
                            }
                            break ;
                        }
                        let ghost remaining_pre = remaining@;
                        let token = remaining.remove(0);
                        proof {
                            assert(spec_tokens_view(remaining_pre).len()
                                == remaining_pre.len());
                            assert(taken < produced.len());
                            assert(spec_tokens_view(remaining_pre)[0]
                                == produced.skip(taken as int)[0]);
                            assert(produced.skip(taken as int)[0] == produced[taken as int]);
                            assert(token@ == produced[taken as int]);
                        }
                        if token.is_end_of_stream() {
                            // The end of the stream: what was collected so
                            // far is the whole parse.
                            found_end = true;
                            proof {
                                assert(produced[taken as int].lexeme is EndOfStream);
                                lemma_before_end_of_stream_take(produced, taken as int);
                            }
                            break ;
                        }
                        let ghost ret_pre = ret_tokens@;
                        ret_tokens.push(token);
                        proof {
                            assert forall|j: int| 0 <= j < remaining@.len() implies #[trigger]
                            spec_tokens_view(remaining@)[j] == produced.skip(
                                taken as int + 1,
                            )[j] by {
                                assert(remaining@[j] == remaining_pre[j + 1]);
                                assert(spec_tokens_view(remaining_pre)[j + 1]
                                    == produced.skip(taken as int)[j + 1]);
                            };
                            assert(spec_tokens_view(remaining@) =~= produced.skip(
                                taken as int + 1,
                            ));
                            assert(spec_tokens_view(ret_pre).len() == ret_pre.len());
                            assert(spec_tokens_view(ret_tokens@).len() == ret_tokens@.len());
                            assert(ret_pre.len() == acc.len() + taken);
                            assert forall|j: int| 0 <= j < ret_tokens@.len() implies #[trigger]
                            spec_tokens_view(ret_tokens@)[j] == (acc + produced.take(
                                taken as int + 1,
                            ))[j] by {
                                if j < ret_pre.len() {
                                    assert(ret_tokens@[j] == ret_pre[j]);
                                    assert(spec_tokens_view(ret_pre)[j] == (acc + produced.take(
                                        taken as int,
                                    ))[j]);
                                } else {
                                    assert(ret_tokens@[j] == token);
                                }
                            };
                            assert(spec_tokens_view(ret_tokens@) =~= acc + produced.take(
                                taken as int + 1,
                            ));
                        }
                        taken = taken + 1;
                    }
                    if found_end {
                        proof {
                            assert(spec_parse_run(m_call, fuel as nat) == ParseRunModel::<T>::Done(
                                spec_before_end_of_stream(produced),
                            ));
                        }
                        return Ok(ret_tokens);
                    }
                    proof {
                        let m_next = this.tokenizer.machine();
                        let acc_new = spec_tokens_view(ret_tokens@);
                        match spec_parse_run(m_next, (fuel - 1) as nat) {
                            ParseRunModel::Done(rest) => {
                                assert(spec_parse_run(m_call, fuel as nat)
                                    == ParseRunModel::<T>::Done(produced + rest));
                                assert(acc + (produced + rest) =~= acc_new + rest);
                            },
                            ParseRunModel::Failed(e) => {
                                assert(spec_parse_run(m_call, fuel as nat)
                                    == ParseRunModel::<T>::Failed(e));
                            },
                            ParseRunModel::Unfinished(rest, reached) => {
                                assert(spec_parse_run(m_call, fuel as nat)
                                    == ParseRunModel::<T>::Unfinished(produced + rest, reached));
                                assert(acc + (produced + rest) =~= acc_new + rest);
                            },
                        }
                    }
                    fuel = fuel - 1;
                },
            }
        }
        proof {
            assert(spec_parse_run(this.tokenizer.machine(), 0nat)
                == ParseRunModel::<T>::Unfinished(
                Seq::<TokenModel>::empty(),
                this.tokenizer.machine(),
            ));
            assert(spec_tokens_view(ret_tokens@) + Seq::<TokenModel>::empty() =~= spec_tokens_view(
                ret_tokens@,
            ));
        }
        Ok(ret_tokens)
    }
}

} // verus!
