//! The pending queue and the selector on it: one shared, ordered stream of
//! signals from which each caller takes the first signal that its filter
//! accepts, leaving every other signal where it was.
//!
//! Waiting for the decoder is the caller's part. The selector decides: it
//! scans what is pending, and it is told of each signal that the decoder
//! hands over.

use std::collections::VecDeque;
use vstd::prelude::*;
use crate::filter::{lemma_accepts_by_shape, Filter};
use crate::signal::{Shape, Signal};

verus! {

/// Whether `i` is the place of the first signal in `pending` that `filter`
/// accepts.
pub open spec fn is_first_match(pending: Seq<Signal>, filter: Filter, i: int) -> bool {
    &&& 0 <= i < pending.len()
    &&& filter.accepts(&pending[i])
    &&& forall|j: int| 0 <= j < i ==> !filter.accepts(&#[trigger] pending[j])
}

/// Whether `filter` accepts some signal in `pending`.
pub open spec fn has_match(pending: Seq<Signal>, filter: Filter) -> bool {
    exists|i: int| 0 <= i < pending.len() && filter.accepts(&#[trigger] pending[i])
}

/// What a selection does to a queue: with `before` pending, it hands out
/// `out` and leaves `after`.
///
/// The signal handed out is the first that `filter` accepts, and only that
/// signal leaves the queue. Where `filter` accepts none, nothing is handed
/// out and the queue stays as it was.
pub open spec fn selects(
    before: Seq<Signal>,
    filter: Filter,
    out: Option<Signal>,
    after: Seq<Signal>,
) -> bool {
    match out {
        Some(signal) => exists|i: int|
            #![trigger is_first_match(before, filter, i)]
            is_first_match(before, filter, i) && signal == before[i] && after == before.remove(i),
        None => !has_match(before, filter) && after == before,
    }
}

/// The signals that no caller has claimed yet, in the order of their arrival.
pub struct Selector {
    pending: VecDeque<Signal>,
}

impl View for Selector {
    type V = Seq<Signal>;

    /// The pending signals, oldest first.
    closed spec fn view(&self) -> Seq<Signal> {
        self.pending@
    }
}

impl Selector {
    /// A selector with nothing pending.
    pub fn new() -> (selector: Selector)
        ensures
            selector@ == Seq::<Signal>::empty(),
    {
        Selector { pending: VecDeque::new() }
    }

    /// How many signals are pending.
    pub fn len(&self) -> (n: usize)
        ensures
            n == self@.len(),
    {
        self.pending.len()
    }

    /// Whether nothing is pending.
    pub fn is_empty(&self) -> (empty: bool)
        ensures
            empty == (self@.len() == 0),
    {
        self.pending.len() == 0
    }

    /// The place of the first pending signal that `filter` accepts.
    fn position(&self, filter: Filter) -> (place: Option<usize>)
        ensures
            match place {
                Some(i) => is_first_match(self@, filter, i as int),
                None => !has_match(self@, filter),
            },
    {
        let mut i: usize = 0;
        while i < self.pending.len()
            invariant
                i <= self.pending@.len(),
                forall|j: int| 0 <= j < i ==> !filter.accepts(&#[trigger] self.pending@[j]),
            decreases self.pending@.len() - i,
        {
            if filter.accepts(&self.pending[i]) {
                return Some(i);
            }
            i += 1;
        }
        None
    }

    /// Whether a pending signal is accepted by `filter`. Nothing is taken.
    pub fn has_match(&self, filter: Filter) -> (found: bool)
        ensures
            found == has_match(self@, filter),
    {
        self.position(filter).is_some()
    }

    /// Puts `signal` behind everything that is pending.
    pub fn enqueue(&mut self, signal: Signal)
        ensures
            final(self)@ == old(self)@.push(signal),
    {
        self.pending.push_back(signal);
    }

    /// Takes the first pending signal that `filter` accepts.
    ///
    /// The signals before it, which `filter` does not accept, stay at the
    /// front in their order, and so does everything behind it. `None` says
    /// that nothing pending is accepted: the decoder has to be asked, and
    /// what it hands over goes to [`Selector::offer`].
    pub fn next_matching(&mut self, filter: Filter) -> (out: Option<Signal>)
        ensures
            selects(old(self)@, filter, out, final(self)@),
    {
        match self.position(filter) {
            Some(i) => {
                let taken = self.pending.remove(i);
                assert(is_first_match(old(self)@, filter, i as int));
                taken
            },
            None => None,
        }
    }

    /// Takes in what the decoder handed over, and selects again.
    ///
    /// A failure of the decoder comes back as it is, and the queue is left
    /// as it was. A signal goes to the back of the queue, behind everything
    /// that arrived before it; then the first signal that `filter` accepts is
    /// taken, which is the new signal itself where nothing older is accepted
    /// and `filter` accepts it.
    pub fn offer<E>(&mut self, filter: Filter, pulled: Result<Signal, E>) -> (out: Result<Option<Signal>, E>)
        ensures
            match pulled {
                Ok(signal) => {
                    &&& out is Ok
                    &&& selects(old(self)@.push(signal), filter, out->Ok_0, final(self)@)
                },
                Err(failure) => {
                    &&& out == Err::<Option<Signal>, E>(failure)
                    &&& final(self)@ == old(self)@
                },
            },
    {
        match pulled {
            Ok(signal) => {
                self.enqueue(signal);
                Ok(self.next_matching(filter))
            },
            Err(failure) => Err(failure),
        }
    }
}

/// A selection has one outcome: the queue and the filter determine which
/// signal is handed out and what is left.
pub proof fn lemma_selection_is_determined(
    before: Seq<Signal>,
    filter: Filter,
    out: Option<Signal>,
    after: Seq<Signal>,
    other_out: Option<Signal>,
    other_after: Seq<Signal>,
)
    requires
        selects(before, filter, out, after),
        selects(before, filter, other_out, other_after),
    ensures
        out == other_out,
        after == other_after,
{
    if let Some(signal) = out {
        let i = choose|i: int|
            is_first_match(before, filter, i) && signal == before[i] && after == before.remove(i);
        assert(has_match(before, filter));
        let other = other_out->0;
        let k = choose|k: int|
            is_first_match(before, filter, k) && other == before[k] && other_after
                == before.remove(k);
        assert(i == k);
    } else if let Some(other) = other_out {
        let k = choose|k: int|
            is_first_match(before, filter, k) && other == before[k] && other_after
                == before.remove(k);
        assert(has_match(before, filter));
    }
}

/// The signals in `pending` that `filter` does not accept, in their order.
pub open spec fn passed_over(pending: Seq<Signal>, filter: Filter) -> Seq<Signal> {
    pending.filter(|signal: Signal| !filter.accepts(&signal))
}

/// The signals of one shape in `pending`, in their order.
pub open spec fn of_shape(pending: Seq<Signal>, shape: Shape) -> Seq<Signal> {
    pending.filter(|signal: Signal| signal.shape() == shape)
}

/// What a predicate keeps of a sequence, told apart by one place in it:
/// what it keeps before that place, of that place, and behind it.
proof fn lemma_filter_around(s: Seq<Signal>, i: int, keep: spec_fn(Signal) -> bool)
    requires
        0 <= i < s.len(),
    ensures
        s.filter(keep) == s.take(i).filter(keep) + (if keep(s[i]) {
            seq![s[i]]
        } else {
            Seq::empty()
        }) + s.skip(i + 1).filter(keep),
        s.remove(i).filter(keep) == s.take(i).filter(keep) + s.skip(i + 1).filter(keep),
{
    let front = s.take(i);
    let back = s.skip(i + 1);
    assert(s =~= front.push(s[i]) + back);
    Seq::filter_distributes_over_add(front.push(s[i]), back, keep);
    front.lemma_filter_push(s[i], keep);
    assert(front.filter(keep).push(s[i]) =~= front.filter(keep) + seq![s[i]]);
    assert(front.filter(keep) =~= front.filter(keep) + Seq::<Signal>::empty());
    assert(s.remove(i) =~= front + back);
    Seq::filter_distributes_over_add(front, back, keep);
}

/// A selection neither drops nor reorders what its filter does not accept:
/// those signals are pending afterwards as they were before, for the next
/// caller.
pub proof fn lemma_selection_keeps_passed_over(
    before: Seq<Signal>,
    filter: Filter,
    out: Option<Signal>,
    after: Seq<Signal>,
)
    requires
        selects(before, filter, out, after),
    ensures
        passed_over(after, filter) == passed_over(before, filter),
{
    if let Some(signal) = out {
        let i = choose|i: int|
            is_first_match(before, filter, i) && signal == before[i] && after == before.remove(i);
        lemma_filter_around(before, i, |signal: Signal| !filter.accepts(&signal));
    }
}

/// A selection takes one signal or none: what was pending is what is still
/// pending together with the signal handed out, so no signal is lost and
/// none reaches two callers.
pub proof fn lemma_selection_takes_one(
    before: Seq<Signal>,
    filter: Filter,
    out: Option<Signal>,
    after: Seq<Signal>,
)
    requires
        selects(before, filter, out, after),
    ensures
        match out {
            Some(signal) => before.to_multiset() == after.to_multiset().insert(signal),
            None => after == before,
        },
{
    if let Some(signal) = out {
        let i = choose|i: int|
            is_first_match(before, filter, i) && signal == before[i] && after == before.remove(i);
        assert(before =~= after.insert(i, signal));
        vstd::seq_lib::to_multiset_insert(after, i, signal);
    }
}

/// Signals of one shape leave the queue in the order of their arrival,
/// whatever filters the callers use: the signal handed out is the oldest of
/// its shape, and the signals of every other shape stay as they were.
pub proof fn lemma_selection_keeps_shape_order(
    before: Seq<Signal>,
    filter: Filter,
    out: Option<Signal>,
    after: Seq<Signal>,
    shape: Shape,
)
    requires
        selects(before, filter, out, after),
    ensures
        of_shape(before, shape) == match out {
            Some(signal) if signal.shape() == shape => seq![signal] + of_shape(after, shape),
            _ => of_shape(after, shape),
        },
{
    if let Some(signal) = out {
        let i = choose|i: int|
            is_first_match(before, filter, i) && signal == before[i] && after == before.remove(i);
        let keep = |signal: Signal| signal.shape() == shape;
        lemma_filter_around(before, i, keep);
        if signal.shape() == shape {
            let front = before.take(i);
            assert forall|j: int| 0 <= j < front.len() implies !keep(#[trigger] front[j]) by {
                assert(!filter.accepts(&before[j]));
                if keep(front[j]) {
                    lemma_accepts_by_shape(filter, front[j], signal);
                }
            }
            assert(front.all(|signal: Signal| !keep(signal)));
            front.lemma_all_neg_filter_empty(keep);
            assert(front.filter(keep) =~= Seq::<Signal>::empty());
            assert(of_shape(before, shape) =~= seq![signal] + of_shape(after, shape));
        } else {
            assert(of_shape(before, shape) =~= of_shape(after, shape));
        }
    }
}

} // verus!
