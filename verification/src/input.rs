//! A forward-only stream of code units with single- and multi-unit lookahead,
//! consumption, and replay of the most recently consumed units (rollback).
//!
//! The stream keeps three regions: the units already consumed and retained for
//! rollback (`consumed`), a FIFO buffer of units fetched from the source but
//! not yet consumed (`buffered`), and the untouched remainder of the source
//! (`unread`). At any time `consumed + buffered + unread` covers the original
//! sequence exactly once; `buffered + unread` is what is still upcoming.

use vstd::prelude::*;
use std::collections::VecDeque;

use crate::codepoint::UnitCodePointExt;
use crate::strbuf::push_char;

verus! {

/// A stream over a materialized sequence of code units, with lookahead,
/// consumption, and rollback of the most recently consumed units.
#[derive(Debug)]
pub struct InputStream<T> {
    source: Vec<T>,
    source_idx: usize,
    current_item: Option<T>,
    temporary_list: VecDeque<T>,
    look_ahead_offset: u8,
    recycle_list: Vec<T>,
    should_continue_peek: usize,
}

/// The two stream regions that consumption and rollback move units between:
/// what is still ahead, and what was consumed and is retained for replay.
pub struct StreamModel<T> {
    pub upcoming: Seq<T>,
    pub consumed: Seq<T>,
}

/// One consumption: the head of `upcoming` moves to the back of `consumed`.
/// At the end of the input nothing moves.
pub open spec fn spec_consume_step<T>(m: StreamModel<T>) -> StreamModel<T> {
    if m.upcoming.len() == 0 {
        m
    } else {
        StreamModel { upcoming: m.upcoming.skip(1), consumed: m.consumed.push(m.upcoming[0]) }
    }
}

/// One rollback: the back of `consumed` moves to the front of `upcoming`.
/// With no retained history nothing moves.
pub open spec fn spec_rollback_step<T>(m: StreamModel<T>) -> StreamModel<T> {
    if m.consumed.len() == 0 {
        m
    } else {
        StreamModel {
            upcoming: seq![m.consumed.last()] + m.upcoming,
            consumed: m.consumed.drop_last(),
        }
    }
}

/// `n` consumptions in a row.
pub open spec fn spec_consume_many<T>(m: StreamModel<T>, n: nat) -> StreamModel<T>
    decreases n,
{
    if n == 0 {
        m
    } else {
        spec_consume_step(spec_consume_many(m, (n - 1) as nat))
    }
}

/// `n` rollbacks in a row.
pub open spec fn spec_rollback_many<T>(m: StreamModel<T>, n: nat) -> StreamModel<T>
    decreases n,
{
    if n == 0 {
        m
    } else {
        spec_rollback_many(spec_rollback_step(m), (n - 1) as nat)
    }
}

/// The unit a peek returns: what stands at the lookahead offset among the
/// upcoming units, when anything does.
pub open spec fn spec_peek<T>(upcoming: Seq<T>, offset: u8) -> Option<T> {
    if (offset as int) < upcoming.len() {
        Option::Some(upcoming[offset as int])
    } else {
        Option::None
    }
}

/// Idempotence of peeking: the peeked unit is a function of the upcoming
/// units and the lookahead offset alone, and a peek changes neither; so two
/// peeks with no consumption or rollback in between, as of any two stream
/// states that agree on both, return the same unit.
pub proof fn lemma_peek_idempotent<T: Copy>(first: InputStream<T>, second: InputStream<T>)
    requires
        second.upcoming() == first.upcoming(),
        second.peek_offset() == first.peek_offset(),
    ensures
        spec_peek(second.upcoming(), second.peek_offset()) == spec_peek(
            first.upcoming(),
            first.peek_offset(),
        ),
{
}

/// Rollback round trip: as long as the `n` consumptions all yield a unit,
/// `n` rollbacks afterwards restore the stream exactly, so the next
/// consumptions reproduce the original units in the original order.
pub proof fn lemma_consume_rollback_round_trip<T>(m: StreamModel<T>, n: nat)
    requires
        n <= m.upcoming.len(),
    ensures
        spec_rollback_many(spec_consume_many(m, n), n) == m,
        spec_consume_many(m, n).upcoming.len() == m.upcoming.len() - n,
    decreases n,
{
    if n > 0 {
        lemma_consume_rollback_round_trip(m, (n - 1) as nat);
        let before = spec_consume_many(m, (n - 1) as nat);
        let after = spec_consume_step(before);
        assert(spec_rollback_step(after).upcoming =~= before.upcoming);
        assert(spec_rollback_step(after).consumed =~= before.consumed);
    }
}

impl<T: Copy> InputStream<T> {
    /// The stream holds a position no further than the end of its source.
    pub closed spec fn wf(&self) -> bool {
        self.source_idx <= self.source@.len()
    }

    /// Units fetched from the source into the lookahead buffer but not yet
    /// consumed, oldest first.
    pub closed spec fn buffered(&self) -> Seq<T> {
        self.temporary_list@
    }

    /// Units of the source not yet fetched.
    pub closed spec fn unread(&self) -> Seq<T> {
        self.source@.skip(self.source_idx as int)
    }

    /// Everything still ahead of the stream position, in order: the lookahead
    /// buffer followed by the unread source.
    pub closed spec fn upcoming(&self) -> Seq<T> {
        self.buffered() + self.unread()
    }

    /// The units consumed so far and retained for rollback, oldest first.
    pub closed spec fn consumed(&self) -> Seq<T> {
        self.recycle_list@
    }

    /// The upcoming/consumed split, as moved by consumption and rollback.
    pub open spec fn model(&self) -> StreamModel<T> {
        StreamModel { upcoming: self.upcoming(), consumed: self.consumed() }
    }

    /// The most recently consumed unit, if the last consumption yielded one.
    pub closed spec fn current_spec(&self) -> Option<T> {
        self.current_item
    }

    /// The lookahead offset at which `peek_next` reads.
    pub closed spec fn peek_offset(&self) -> u8 {
        self.look_ahead_offset
    }

    /// The width of the window a previous `peek_n` asked for, zero when no
    /// peek window is open.
    pub closed spec fn peek_window(&self) -> usize {
        self.should_continue_peek
    }

    /// Wraps a sequence of code units, positioned at its start.
    pub fn new(input: Vec<T>) -> (r: Self)
        ensures
            r.wf(),
            r.upcoming() == input@,
            r.buffered() == Seq::<T>::empty(),
            r.consumed() == Seq::<T>::empty(),
            r.current_spec() is None,
            r.peek_offset() == 0,
            r.peek_window() == 0,
    {
        let r = Self {
            source: input,
            source_idx: 0,
            current_item: Option::None,
            temporary_list: VecDeque::new(),
            look_ahead_offset: 0,
            recycle_list: Vec::new(),
            should_continue_peek: 0,
        };
        proof {
            assert(r.upcoming() =~= r.source@);
        }
        r
    }

    fn decrement_look_ahead(&mut self)
        ensures
            *final(self) == (InputStream {
                look_ahead_offset: if old(self).look_ahead_offset == 0 {
                    0u8
                } else {
                    (old(self).look_ahead_offset - 1) as u8
                },
                ..*old(self)
            }),
    {
        self.look_ahead_offset = self.look_ahead_offset.saturating_sub(1);
    }

    /// Moves one unit from the unread source to the back of the lookahead
    /// buffer, when any is left.
    fn enqueue(&mut self)
        requires
            old(self).wf(),
        ensures
            final(self).wf(),
            final(self).upcoming() == old(self).upcoming(),
            final(self).buffered().len() == if old(self).unread().len() > 0 {
                old(self).buffered().len() + 1
            } else {
                old(self).buffered().len()
            },
            final(self).consumed() == old(self).consumed(),
            final(self).current_spec() == old(self).current_spec(),
            final(self).peek_offset() == old(self).peek_offset(),
            final(self).peek_window() == old(self).peek_window(),
    {
        if self.source_idx < self.source.len() {
            let item = self.source[self.source_idx];
            self.temporary_list.push_back(item);
            self.source_idx = self.source_idx + 1;
            proof {
                assert(final(self).upcoming() =~= old(self).upcoming());
            }
        } else {
            proof {
                assert(final(self).upcoming() =~= old(self).upcoming());
            }
        }
    }

    /// Fetches from the source until the lookahead buffer holds more than
    /// `required_elements` units, or the source runs dry.
    fn fill(&mut self, required_elements: u8)
        requires
            old(self).wf(),
        ensures
            final(self).wf(),
            final(self).upcoming() == old(self).upcoming(),
            final(self).buffered().len() == if old(self).buffered().len()
                > required_elements as int {
                old(self).buffered().len()
            } else if old(self).upcoming().len() < required_elements as int + 1 {
                old(self).upcoming().len()
            } else {
                required_elements as nat + 1
            },
            final(self).consumed() == old(self).consumed(),
            final(self).current_spec() == old(self).current_spec(),
            final(self).peek_offset() == old(self).peek_offset(),
            final(self).peek_window() == old(self).peek_window(),
    {
        let stored_elements = self.temporary_list.len();
        if stored_elements <= required_elements as usize {
            let mut i: usize = stored_elements;
            while i <= required_elements as usize
                invariant
                    self.wf(),
                    stored_elements <= i <= required_elements as usize + 1,
                    self.upcoming() == old(self).upcoming(),
                    self.consumed() == old(self).consumed(),
                    self.current_spec() == old(self).current_spec(),
                    self.peek_offset() == old(self).peek_offset(),
                    self.peek_window() == old(self).peek_window(),
                    self.buffered().len() == if old(self).upcoming().len() < i as int {
                        old(self).upcoming().len()
                    } else {
                        i as nat
                    },
                decreases required_elements as int + 1 - i,
            {
                self.enqueue();
                i = i + 1;
            }
        }
    }

    /// Takes the next unit: the front of the lookahead buffer when one is
    /// buffered, otherwise the next unread unit of the source.
    fn take_or_next(&mut self) -> (r: Option<T>)
        requires
            old(self).wf(),
        ensures
            final(self).wf(),
            old(self).upcoming().len() == 0 ==> r is None && final(self).upcoming() == old(self).upcoming(),
            old(self).upcoming().len() > 0 ==> r == Some(old(self).upcoming()[0]) && final(self).upcoming() == old(self).upcoming().skip(1),
            final(self).consumed() == old(self).consumed(),
            final(self).current_spec() == old(self).current_spec(),
            final(self).peek_offset() == old(self).peek_offset(),
            final(self).peek_window() == old(self).peek_window(),
    {
        if self.temporary_list.len() == 0 {
            if self.source_idx < self.source.len() {
                let item = self.source[self.source_idx];
                self.source_idx = self.source_idx + 1;
                proof {
                    assert(final(self).upcoming() =~= old(self).upcoming().skip(1));
                }
                Option::Some(item)
            } else {
                proof {
                    assert(final(self).upcoming() =~= old(self).upcoming());
                }
                Option::None
            }
        } else {
            let r = self.temporary_list.pop_front();
            proof {
                assert(final(self).upcoming() =~= old(self).upcoming().skip(1));
            }
            r
        }
    }

    /// Consumes `n + 1` units, discarding them.
    pub fn advance(&mut self, n: usize)
        requires
            old(self).wf(),
        ensures
            final(self).wf(),
            final(self).model() == spec_consume_many(old(self).model(), n as nat + 1),
            final(self).peek_window() == old(self).peek_window(),
            final(self).current_spec() == if old(self).upcoming().len() >= n as int + 1 {
                Some(old(self).upcoming()[n as int])
            } else {
                Option::<T>::None
            },
    {
        let ghost len = old(self).upcoming().len() as int;
        let mut i: usize = 0;
        loop
            invariant_except_break
                self.wf(),
                0 <= i <= n,
                len == old(self).upcoming().len(),
                self.upcoming() == old(self).upcoming().skip(vstd::math::min(i as int, len)),
                self.consumed() == old(self).consumed() + old(self).upcoming().take(
                    vstd::math::min(i as int, len),
                ),
                self.peek_window() == old(self).peek_window(),
                i > 0 ==> self.current_spec() == if len >= i as int {
                    Some(old(self).upcoming()[i - 1])
                } else {
                    Option::<T>::None
                },
            ensures
                self.wf(),
                self.upcoming() == old(self).upcoming().skip(vstd::math::min(n as int + 1, len)),
                self.consumed() == old(self).consumed() + old(self).upcoming().take(
                    vstd::math::min(n as int + 1, len),
                ),
                self.peek_window() == old(self).peek_window(),
                self.current_spec() == if len >= n as int + 1 {
                    Some(old(self).upcoming()[n as int])
                } else {
                    Option::<T>::None
                },
            decreases n - i,
        {
            let ghost pre = self.model();
            self.consume_next();
            proof {
                let k = vstd::math::min(i as int, len);
                if k < len {
                    assert(pre.upcoming[0] == old(self).upcoming()[k]);
                    assert(self.upcoming() =~= old(self).upcoming().skip(
                        vstd::math::min(i as int + 1, len),
                    ));
                    assert(self.consumed() =~= old(self).consumed() + old(self).upcoming().take(
                        vstd::math::min(i as int + 1, len),
                    ));
                }
            }
            if i == n {
                break ;
            }
            i = i + 1;
        }
        proof {
            lemma_consume_many_shape_total(old(self).model(), n as nat + 1);
            assert(self.upcoming() =~= spec_consume_many(old(self).model(), n as nat + 1).upcoming);
            assert(self.consumed() =~= spec_consume_many(old(self).model(), n as nat + 1).consumed);
        }
    }

    /// Consumes one unit: advances past it, retains it for rollback, and
    /// returns it, or returns nothing at the end of the input.
    pub fn consume_next(&mut self) -> (r: Option<T>)
        requires
            old(self).wf(),
        ensures
            final(self).wf(),
            final(self).model() == spec_consume_step(old(self).model()),
            final(self).upcoming() == if old(self).upcoming().len() > 0 {
                old(self).upcoming().skip(1)
            } else {
                old(self).upcoming()
            },
            r == if old(self).upcoming().len() > 0 {
                Some(old(self).upcoming()[0])
            } else {
                Option::<T>::None
            },
            final(self).current_spec() == r,
            final(self).peek_offset() == if old(self).peek_offset() == 0 {
                0u8
            } else {
                (old(self).peek_offset() - 1) as u8
            },
            final(self).peek_window() == old(self).peek_window(),
    {
        let next_item = self.take_or_next();
        self.decrement_look_ahead();
        self.current_item = next_item;
        if let Option::Some(item) = next_item {
            self.recycle_list.push(item);
        }
        next_item
    }

    /// The most recently consumed unit, if the last consumption yielded one.
    pub fn current(&self) -> (r: Option<&T>)
        ensures
            match r {
                Some(item) => self.current_spec() == Some(*item),
                None => self.current_spec() is None,
            },
    {
        self.current_item.as_ref()
    }

    /// The unit at the lookahead offset, without consuming anything. The
    /// lookahead buffer is filled on demand; what is upcoming, what was
    /// consumed, and the result are unchanged by repeated calls.
    pub fn peek_next(&mut self) -> (r: Option<T>)
        requires
            old(self).wf(),
        ensures
            final(self).wf(),
            final(self).model() == old(self).model(),
            final(self).current_spec() == old(self).current_spec(),
            final(self).peek_offset() == old(self).peek_offset(),
            final(self).peek_window() == old(self).peek_window(),
            r == spec_peek(old(self).upcoming(), old(self).peek_offset()),
    {
        let offset = self.look_ahead_offset;
        self.fill(offset);
        if (offset as usize) < self.temporary_list.len() {
            Option::Some(self.temporary_list[offset as usize])
        } else {
            Option::None
        }
    }

    /// Does the unit at the lookahead offset exist and satisfy `cb`?
    pub fn is_peek<F: Fn(&T) -> bool>(&mut self, cb: F) -> (r: bool)
        requires
            old(self).wf(),
            forall|x: &T| #[trigger] call_requires(cb, (x,)),
        ensures
            final(self).wf(),
            final(self).model() == old(self).model(),
            final(self).current_spec() == old(self).current_spec(),
            final(self).peek_offset() == old(self).peek_offset(),
            final(self).peek_window() == old(self).peek_window(),
            (old(self).peek_offset() as int) >= old(self).upcoming().len() ==> r == false,
            (old(self).peek_offset() as int) < old(self).upcoming().len() ==> call_ensures(
                cb,
                (&old(self).upcoming()[old(self).peek_offset() as int],),
                r,
            ),
    {
        match self.peek_next() {
            Option::Some(item) => cb(&item),
            Option::None => false,
        }
    }
}

impl<T: UnitCodePointExt> InputStream<T> {
    /// Does the unit at the lookahead offset exist and stand for
    /// `expected_char`?
    pub fn is_peek_char(&mut self, expected_char: char) -> (r: bool)
        requires
            old(self).wf(),
        ensures
            final(self).wf(),
            final(self).model() == old(self).model(),
            final(self).current_spec() == old(self).current_spec(),
            final(self).peek_offset() == old(self).peek_offset(),
            final(self).peek_window() == old(self).peek_window(),
            r == ((old(self).peek_offset() as int) < old(self).upcoming().len() && old(self).upcoming()[old(self).peek_offset() as int].matches_char(expected_char)),
    {
        match self.peek_next() {
            Option::Some(item) => item.is(expected_char),
            Option::None => false,
        }
    }

    /// Does the unit at the lookahead offset exist with a canonical character
    /// between `first_char` and `last_char`, both included?
    pub fn is_peek_chars(&mut self, first_char: char, last_char: char) -> (r: bool)
        requires
            old(self).wf(),
        ensures
            final(self).wf(),
            final(self).model() == old(self).model(),
            final(self).current_spec() == old(self).current_spec(),
            final(self).peek_offset() == old(self).peek_offset(),
            final(self).peek_window() == old(self).peek_window(),
            r == ((old(self).peek_offset() as int) < old(self).upcoming().len() && first_char <= old(self).upcoming()[old(self).peek_offset() as int].to_unit() && old(self).upcoming()[old(self).peek_offset() as int].to_unit() <= last_char),
    {
        match self.peek_next() {
            Option::Some(item) => {
                let u = item.unit();
                first_char <= u && u <= last_char
            },
            Option::None => false,
        }
    }

    /// The unit at the lookahead offset, when it stands for the same character
    /// as `expected_item`.
    pub fn peek_item(&mut self, expected_item: T) -> (r: Option<T>)
        requires
            old(self).wf(),
        ensures
            final(self).wf(),
            final(self).model() == old(self).model(),
            final(self).current_spec() == old(self).current_spec(),
            final(self).peek_offset() == old(self).peek_offset(),
            final(self).peek_window() == old(self).peek_window(),
            r == if (old(self).peek_offset() as int) < old(self).upcoming().len() && old(self).upcoming()[old(self).peek_offset() as int].matches_char(expected_item.to_unit()) {
                Some(old(self).upcoming()[old(self).peek_offset() as int])
            } else {
                Option::<T>::None
            },
    {
        match self.peek_next() {
            Option::Some(item) => {
                if item.is(expected_item.unit()) {
                    Option::Some(item)
                } else {
                    Option::None
                }
            },
            Option::None => Option::None,
        }
    }

    /// A string of the canonical characters of the first `n` buffered units,
    /// without consuming anything. Opens a peek window of width `n`: until
    /// `reset_peek`, further calls read the buffer as it stands, so repeated
    /// calls at the same position return the same string.
    pub fn peek_n(&mut self, n: usize) -> (r: Option<String>)
        requires
            old(self).wf(),
        ensures
            final(self).wf(),
            final(self).model() == old(self).model(),
            final(self).current_spec() == old(self).current_spec(),
            final(self).peek_offset() == old(self).peek_offset(),
            final(self).peek_window() == n,
            final(self).buffered().len() == if old(self).peek_window() != 0 {
                old(self).buffered().len()
            } else if old(self).buffered().len() > n as u8 as int {
                old(self).buffered().len()
            } else if old(self).upcoming().len() < n as u8 as int + 1 {
                old(self).upcoming().len()
            } else {
                n as u8 as nat + 1
            },
            match r {
                Some(s) => s@ == final(self).buffered().take(
                    vstd::math::min(n as int, final(self).buffered().len() as int),
                ).map_values(|t: T| t.to_unit()),
                None => false,
            },
    {
        if self.should_continue_peek == 0 {
            #[verifier::truncate]
            let required = n as u8;
            self.fill(required);
        }
        self.should_continue_peek = n;

        let mut stru = String::new();
        let ghost snap = *self;
        let width = if n < self.temporary_list.len() {
            n
        } else {
            self.temporary_list.len()
        };
        let mut i: usize = 0;
        while i < width
            invariant
                0 <= i <= width,
                *self == snap,
                width == vstd::math::min(n as int, self.buffered().len() as int),
                stru@ == self.buffered().take(i as int).map_values(|t: T| t.to_unit()),
            decreases width - i,
        {
            let item = self.temporary_list[i];
            push_char(&mut stru, item.unit());
            proof {
                assert(self.buffered().take(i as int + 1).map_values(|t: T| t.to_unit())
                    =~= self.buffered().take(i as int).map_values(|t: T| t.to_unit()).push(
                    self.buffered()[i as int].to_unit(),
                ));
            }
            i = i + 1;
        }
        Option::Some(stru)
    }

    /// Closes the peek window: the next `peek_n` fills the buffer anew.
    pub fn reset_peek(&mut self)
        ensures
            final(self).wf() == old(self).wf(),
            final(self).model() == old(self).model(),
            final(self).buffered() == old(self).buffered(),
            final(self).current_spec() == old(self).current_spec(),
            final(self).peek_offset() == old(self).peek_offset(),
            final(self).peek_window() == 0,
    {
        self.should_continue_peek = 0;
    }

    /// Pushes the most recently consumed unit back to the front of the
    /// lookahead buffer, making it re-consumable. With no retained history
    /// this does nothing.
    pub fn rollback_once(&mut self)
        requires
            old(self).wf(),
        ensures
            final(self).wf(),
            final(self).model() == spec_rollback_step(old(self).model()),
            final(self).current_spec() == old(self).current_spec(),
            final(self).peek_offset() == old(self).peek_offset(),
            final(self).peek_window() == old(self).peek_window(),
    {
        let last = match self.recycle_list.pop() {
            Option::Some(last) => last,
            Option::None => {
                return ;
            },
        };
        self.temporary_list.push_front(last);
        proof {
            assert(final(self).upcoming() =~= spec_rollback_step(old(self).model()).upcoming);
            assert(final(self).consumed() =~= spec_rollback_step(old(self).model()).consumed);
        }
    }
}

/// After `n` consumptions, the first `min(n, len)` units moved from
/// `upcoming` to the back of `consumed`, in order; consuming past the end of
/// the input moves nothing further.
pub proof fn lemma_consume_many_shape_total<T>(m: StreamModel<T>, n: nat)
    ensures
        spec_consume_many(m, n).upcoming == m.upcoming.skip(
            vstd::math::min(n as int, m.upcoming.len() as int),
        ),
        spec_consume_many(m, n).consumed == m.consumed + m.upcoming.take(
            vstd::math::min(n as int, m.upcoming.len() as int),
        ),
    decreases n,
{
    if n == 0 {
        assert(spec_consume_many(m, 0).upcoming =~= m.upcoming.skip(0));
        assert(spec_consume_many(m, 0).consumed =~= m.consumed + m.upcoming.take(0));
    } else {
        lemma_consume_many_shape_total(m, (n - 1) as nat);
        let prev = spec_consume_many(m, (n - 1) as nat);
        let k = vstd::math::min(n as int, m.upcoming.len() as int);
        assert(spec_consume_step(prev).upcoming =~= m.upcoming.skip(k));
        assert(spec_consume_step(prev).consumed =~= m.consumed + m.upcoming.take(k));
    }
}

} // verus!
