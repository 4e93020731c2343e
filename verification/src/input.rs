//! The public input surface: `read` and `poll` on the shared selector, and
//! the two shapes in which a signal reaches the application.
//!
//! Both calls come in two steps, because waiting is the caller's part.
//! First the caller asks what is pending ([`try_read`], [`pending`]). Only
//! where nothing is, it asks the decoder, which may block, and hands the
//! decoder's answer to [`read`] or [`poll`].

use vstd::prelude::*;
use crate::command::{toggle_sequence, write_toggle, Command, FormatError, NativeError, Toggle};
use crate::event::Event;
use crate::filter::Filter;
use crate::selector::{
    has_match, is_first_match, lemma_selection_keeps_passed_over, passed_over, selects, Selector,
};
use crate::signal::Signal;

verus! {

/// What a read hands to the application.
#[derive(Debug, PartialOrd, PartialEq, Eq, Hash)]
pub enum Input {
    /// A discrete event.
    Event(Event),
    /// A block of pasted text.
    Paste(String),
}

impl Clone for Input {
    /// A copy with the same content.
    fn clone(&self) -> (copy: Input)
        ensures
            copy == *self,
    {
        match self {
            Input::Event(event) => Input::Event(*event),
            Input::Paste(text) => Input::Paste(text.clone()),
        }
    }
}

/// The input that a signal becomes: a discrete event stays that event, with
/// every field of it, and a paste chunk becomes pasted text with the same
/// content.
pub open spec fn classify(signal: Signal) -> Input {
    match signal {
        Signal::DiscreteEvent(event) => Input::Event(event),
        Signal::PasteChunk(text) => Input::Paste(text),
    }
}

/// Signals and inputs correspond one to one: two signals that classify to
/// the same input are the same signal.
pub proof fn lemma_classify_one_to_one(a: Signal, b: Signal)
    requires
        classify(a) == classify(b),
    ensures
        a == b,
{
}

impl Signal {
    /// Turns the signal into the input that the application sees.
    pub fn into_input(self) -> (input: Input)
        ensures
            input == classify(self),
    {
        match self {
            Signal::DiscreteEvent(event) => Input::Event(event),
            Signal::PasteChunk(text) => Input::Paste(text),
        }
    }
}

/// The code of the bracketed-paste capability: with it on, the terminal
/// reports pasted text as one block.
pub open spec fn bracketed_paste_code() -> Seq<char> {
    seq!['?', '2', '0', '0', '4']
}

/// Asks the terminal to report pasted text as a block.
#[derive(Debug, Clone, Copy, PartialEq, Eq)]
pub struct EnableBracketedPaste;

impl Command for EnableBracketedPaste {
    open spec fn ansi(&self) -> Seq<char> {
        toggle_sequence(bracketed_paste_code(), Toggle::Enable)
    }

    fn write_ansi(&self, f: &mut String) -> (done: Result<(), FormatError>)
        ensures
            done is Ok,
            final(f)@ == old(f)@ + self.ansi(),
    {
        proof {
            reveal_strlit("?2004");
            assert("?2004"@ =~= bracketed_paste_code());
        }
        write_toggle(f, "?2004", Toggle::Enable);
        Ok(())
    }

    /// Nothing to do: the mode has no native side.
    fn execute_winapi(&self) -> (done: Result<(), NativeError>)
        ensures
            done is Ok,
    {
        Ok(())
    }
}

/// Asks the terminal to stop reporting pasted text as a block.
#[derive(Debug, Clone, Copy, PartialEq, Eq)]
pub struct DisableBracketedPaste;

impl Command for DisableBracketedPaste {
    open spec fn ansi(&self) -> Seq<char> {
        toggle_sequence(bracketed_paste_code(), Toggle::Disable)
    }

    fn write_ansi(&self, f: &mut String) -> (done: Result<(), FormatError>)
        ensures
            done is Ok,
            final(f)@ == old(f)@ + self.ansi(),
    {
        proof {
            reveal_strlit("?2004");
            assert("?2004"@ =~= bracketed_paste_code());
        }
        write_toggle(f, "?2004", Toggle::Disable);
        Ok(())
    }

    /// Nothing to do: the mode has no native side.
    fn execute_winapi(&self) -> (done: Result<(), NativeError>)
        ensures
            done is Ok,
    {
        Ok(())
    }
}

/// The accept-all filter takes the front of the queue, whatever it is.
pub proof fn lemma_any_selects_front(before: Seq<Signal>, out: Option<Signal>, after: Seq<Signal>)
    requires
        selects(before, Filter::Any, out, after),
    ensures
        before.len() == 0 ==> out is None && after == before,
        before.len() > 0 ==> out == Some(before[0]) && after == before.drop_first(),
{
    match out {
        Some(signal) => {
            let i = choose|i: int| is_first_match(before, Filter::Any, i) && signal == before[i]
                && after == before.remove(i);
            assert(Filter::Any.accepts(&before[0]));
            assert(i == 0);
            assert(before.remove(0) =~= before.drop_first());
        },
        None => {
            if before.len() > 0 {
                assert(Filter::Any.accepts(&before[0]));
                assert(has_match(before, Filter::Any));
            }
        },
    }
}

/// Whether a signal is pending that a read would take. Nothing is taken.
pub fn pending(selector: &Selector) -> (ready: bool)
    ensures
        ready == (selector@.len() > 0),
{
    let ready = selector.has_match(Filter::Any);
    proof {
        if selector@.len() > 0 {
            assert(Filter::Any.accepts(&selector@[0]));
        }
    }
    ready
}

/// Reads the oldest pending signal, if there is one.
///
/// `None` says that nothing is pending, and nothing has changed: the caller
/// asks the decoder for the next signal and goes on with [`read`].
pub fn try_read(selector: &mut Selector) -> (out: Option<Input>)
    ensures
        old(selector)@.len() == 0 ==> out is None && final(selector)@ == old(selector)@,
        old(selector)@.len() > 0 ==> {
            &&& out == Some(classify(old(selector)@[0]))
            &&& final(selector)@ == old(selector)@.drop_first()
        },
{
    let taken = selector.next_matching(Filter::Any);
    proof {
        lemma_any_selects_front(old(selector)@, taken, selector@);
    }
    match taken {
        Some(signal) => Some(signal.into_input()),
        None => None,
    }
}

/// Completes a read with what the decoder handed over.
///
/// A failure of the decoder comes back as it is, and the pending signals
/// stay as they were. A signal takes its place behind the pending ones, and
/// the oldest of them all is read: where nothing was pending, that is the
/// new signal itself. A discrete event comes out as [`Input::Event`] and a
/// paste chunk as [`Input::Paste`].
pub fn read<E>(selector: &mut Selector, pulled: Result<Signal, E>) -> (out: Result<Input, E>)
    ensures
        match pulled {
            Ok(signal) => {
                &&& out == Ok::<Input, E>(classify(old(selector)@.push(signal)[0]))
                &&& final(selector)@ == old(selector)@.push(signal).drop_first()
            },
            Err(failure) => {
                &&& out == Err::<Input, E>(failure)
                &&& final(selector)@ == old(selector)@
            },
        },
{
    let ghost arrived = if pulled is Ok {
        old(selector)@.push(pulled->Ok_0)
    } else {
        old(selector)@
    };
    match selector.offer(Filter::Any, pulled) {
        Ok(Some(signal)) => {
            proof {
                lemma_any_selects_front(arrived, Some(signal), selector@);
            }
            Ok(signal.into_input())
        },
        Ok(None) => {
            proof {
                lemma_any_selects_front(arrived, None, selector@);
            }
            vstd::pervasive::unreached()
        },
        Err(failure) => Err(failure),
    }
}

/// Completes a poll with what the decoder's bounded wait reported.
///
/// A failure of the decoder comes back as it is. Otherwise the answer is
/// whether a signal is there for a read: one that is pending, or one that
/// became available at the decoder within the bound. Where nothing is
/// pending and the bound ran out, the answer is `false`. Nothing is taken
/// from the queue or put into it.
pub fn poll<E>(selector: &Selector, waited: Result<bool, E>) -> (out: Result<bool, E>)
    ensures
        match waited {
            Ok(available) => out == Ok::<bool, E>(selector@.len() > 0 || available),
            Err(failure) => out == Err::<bool, E>(failure),
        },
{
    match waited {
        Ok(available) => Ok(pending(selector) || available),
        Err(failure) => Err(failure),
    }
}

/// What the reads of one session hand over, one after another, until
/// nothing is left: `pending` is what the selector holds at the start, and
/// `incoming` is what the decoder hands over, in this order, each time it is
/// asked.
///
/// Each read takes a pending signal as [`try_read`] does; where nothing is
/// pending, it asks the decoder and goes on as [`read`] does.
pub open spec fn deliveries(pending: Seq<Signal>, incoming: Seq<Signal>) -> Seq<Input>
    decreases pending.len() + incoming.len(),
{
    if pending.len() > 0 {
        seq![classify(pending[0])] + deliveries(pending.drop_first(), incoming)
    } else if incoming.len() > 0 {
        let arrived = pending.push(incoming[0]);
        seq![classify(arrived[0])] + deliveries(arrived.drop_first(), incoming.drop_first())
    } else {
        Seq::empty()
    }
}

/// Repeated reads hand over every signal once, in the order of arrival, each
/// as the input that it classifies to: none is skipped, none comes twice,
/// none overtakes another.
pub proof fn lemma_reads_in_arrival_order(pending: Seq<Signal>, incoming: Seq<Signal>)
    ensures
        deliveries(pending, incoming) == (pending + incoming).map_values(
            |signal: Signal| classify(signal),
        ),
    decreases pending.len() + incoming.len(),
{
    let all = pending + incoming;
    let classified = all.map_values(|signal: Signal| classify(signal));
    if pending.len() > 0 {
        lemma_reads_in_arrival_order(pending.drop_first(), incoming);
        assert(pending.drop_first() + incoming =~= all.drop_first());
        assert(deliveries(pending, incoming) =~= classified);
    } else if incoming.len() > 0 {
        let arrived = pending.push(incoming[0]);
        lemma_reads_in_arrival_order(arrived.drop_first(), incoming.drop_first());
        assert(arrived.drop_first() + incoming.drop_first() =~= all.drop_first());
        assert(deliveries(pending, incoming) =~= classified);
    } else {
        assert(deliveries(pending, incoming) =~= classified);
    }
}

/// A discrete event goes through a read unchanged: the read that hands over
/// a signal wrapping `event` hands over [`Input::Event`] of that very event.
pub proof fn lemma_event_round_trip(
    pending: Seq<Signal>,
    incoming: Seq<Signal>,
    k: int,
    event: Event,
)
    requires
        0 <= k < (pending + incoming).len(),
        (pending + incoming)[k] == Signal::DiscreteEvent(event),
    ensures
        deliveries(pending, incoming).len() == (pending + incoming).len(),
        deliveries(pending, incoming)[k] == Input::Event(event),
{
    lemma_reads_in_arrival_order(pending, incoming);
}

/// A query with any filter between two reads costs the reads nothing but the
/// signal that the query took: what the query did not accept is still
/// pending in its order, and the reads that follow hand over all that is
/// left and all that arrives, in order.
pub proof fn lemma_query_between_reads(
    pending: Seq<Signal>,
    filter: Filter,
    taken: Option<Signal>,
    left: Seq<Signal>,
    incoming: Seq<Signal>,
)
    requires
        selects(pending, filter, taken, left),
    ensures
        passed_over(left, filter) == passed_over(pending, filter),
        deliveries(left, incoming) == (left + incoming).map_values(
            |signal: Signal| classify(signal),
        ),
        match taken {
            Some(signal) => exists|i: int|
                #![trigger is_first_match(pending, filter, i)]
                is_first_match(pending, filter, i) && deliveries(left, incoming) == deliveries(
                    pending,
                    incoming,
                ).remove(i),
            None => deliveries(left, incoming) == deliveries(pending, incoming),
        },
{
    lemma_selection_keeps_passed_over(pending, filter, taken, left);
    lemma_reads_in_arrival_order(left, incoming);
    lemma_reads_in_arrival_order(pending, incoming);
    if let Some(signal) = taken {
        let i = choose|i: int|
            is_first_match(pending, filter, i) && signal == pending[i] && left == pending.remove(
                i,
            );
        assert(left + incoming =~= (pending + incoming).remove(i));
        assert(deliveries(left, incoming) =~= deliveries(pending, incoming).remove(i));
    }
}

} // verus!
