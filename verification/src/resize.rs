//! Coalescing a burst of resize events.
//!
//! A terminal that is being resized reports many sizes in quick succession.
//! The coalescer reduces such a burst to the first and the last size: after
//! a resize event the caller polls with a short bound and reads while
//! something is available, and hands each outcome to the coalescer, which
//! decides whether the drain goes on and what the last size is.
//!
//! The drain is greedy, and it is lossy: an input that is no resize event
//! and arrives during the burst is read, and discarded. The coalescer says
//! so of each input, in what [`ResizeCoalescer::observe`] returns.

use vstd::prelude::*;
use crate::event::Event;
use crate::input::Input;

verus! {

/// The bound of each poll of a drain, in milliseconds, unless the caller
/// sets another.
pub const DEFAULT_POLL_BOUND_MS: u64 = 50;

/// The size that an input reports, if it is a resize event.
pub open spec fn resize_of(input: Input) -> Option<(u16, u16)> {
    match input {
        Input::Event(Event::Resize(columns, rows)) => Some((columns, rows)),
        _ => None,
    }
}

/// The size of the last resize event among `observed`, or `first` where
/// there is none.
pub open spec fn last_size(first: (u16, u16), observed: Seq<Input>) -> (u16, u16)
    decreases observed.len(),
{
    if observed.len() == 0 {
        first
    } else {
        match resize_of(observed.last()) {
            Some(size) => size,
            None => last_size(first, observed.drop_last()),
        }
    }
}

/// What became of an outcome that the coalescer was shown.
#[derive(Debug, Clone, Copy, PartialEq, Eq, Structural)]
pub enum Observation {
    /// A resize event: its size is now the last size.
    Resized,
    /// An input that is no resize event: it is dropped, and lost to the
    /// application.
    Discarded,
    /// The read failed: nothing was read, and the drain goes on.
    Failed,
}

/// The state of one drain: the size that started it, and the last size seen.
pub struct ResizeCoalescer {
    first: (u16, u16),
    last: (u16, u16),
    poll_bound_ms: u64,
    observed: Ghost<Seq<Input>>,
}

impl ResizeCoalescer {
    #[verifier::type_invariant]
    spec fn consistent(&self) -> bool {
        self.last == last_size(self.first, self.observed@)
    }

    /// The size of the resize event that started the drain.
    pub closed spec fn first(&self) -> (u16, u16) {
        self.first
    }

    /// The bound of each poll of this drain, in milliseconds.
    pub closed spec fn spec_poll_bound_ms(&self) -> u64 {
        self.poll_bound_ms
    }

    /// The inputs read during the drain so far, oldest first.
    pub closed spec fn observed(&self) -> Seq<Input> {
        self.observed@
    }

    /// Starts a drain upon `event`, with the default poll bound.
    ///
    /// Only a resize event starts one.
    pub fn begin(event: &Event) -> (out: Option<ResizeCoalescer>)
        ensures
            match *event {
                Event::Resize(columns, rows) => {
                    &&& out is Some
                    &&& out->0.first() == (columns, rows)
                    &&& out->0.observed() == Seq::<Input>::empty()
                    &&& out->0.spec_poll_bound_ms() == DEFAULT_POLL_BOUND_MS
                },
                _ => out is None,
            },
    {
        match event {
            Event::Resize(columns, rows) => Some(
                ResizeCoalescer {
                    first: (*columns, *rows),
                    last: (*columns, *rows),
                    poll_bound_ms: DEFAULT_POLL_BOUND_MS,
                    observed: Ghost(Seq::empty()),
                },
            ),
            _ => None,
        }
    }

    /// The same drain with another poll bound, in milliseconds.
    pub fn with_poll_bound_ms(self, bound_ms: u64) -> (out: ResizeCoalescer)
        ensures
            out.first() == self.first(),
            out.observed() == self.observed(),
            out.spec_poll_bound_ms() == bound_ms,
    {
        proof {
            use_type_invariant(&self);
        }
        ResizeCoalescer {
            first: self.first,
            last: self.last,
            poll_bound_ms: bound_ms,
            observed: self.observed,
        }
    }

    /// The bound to poll with, in milliseconds.
    #[verifier::when_used_as_spec(spec_poll_bound_ms)]
    pub fn poll_bound_ms(&self) -> (bound_ms: u64)
        ensures
            bound_ms == self.spec_poll_bound_ms(),
    {
        self.poll_bound_ms
    }

    /// Whether the drain goes on after a poll: it does when the poll found
    /// an input available, and it ends when the bound ran out with nothing
    /// pending or the poll failed.
    pub fn goes_on<E>(&self, polled: &Result<bool, E>) -> (more: bool)
        ensures
            more == (*polled == Ok::<bool, E>(true)),
    {
        match polled {
            Ok(available) => *available,
            Err(_) => false,
        }
    }

    /// Takes note of the outcome of one read of the drain.
    ///
    /// The size of a resize event becomes the last size. Any other input is
    /// discarded, and a failed read changes nothing.
    pub fn observe<E>(&mut self, read: Result<Input, E>) -> (what: Observation)
        ensures
            final(self).first() == old(self).first(),
            final(self).spec_poll_bound_ms() == old(self).spec_poll_bound_ms(),
            match read {
                Ok(input) => {
                    &&& final(self).observed() == old(self).observed().push(input)
                    &&& what == if resize_of(input) is Some {
                        Observation::Resized
                    } else {
                        Observation::Discarded
                    }
                },
                Err(_) => final(self).observed() == old(self).observed() && what
                    == Observation::Failed,
            },
    {
        proof {
            use_type_invariant(&*self);
        }
        match read {
            Ok(input) => {
                proof {
                    assert(self.observed@.push(input).drop_last() =~= self.observed@);
                }
                let ghost seen = self.observed@.push(input);
                match input {
                    Input::Event(Event::Resize(columns, rows)) => {
                        *self = ResizeCoalescer {
                            first: self.first,
                            last: (columns, rows),
                            poll_bound_ms: self.poll_bound_ms,
                            observed: Ghost(seen),
                        };
                        Observation::Resized
                    },
                    _ => {
                        self.observed = Ghost(seen);
                        Observation::Discarded
                    },
                }
            },
            Err(_) => Observation::Failed,
        }
    }

    /// Ends the drain: the size that started it, and the size of the last
    /// resize event read during it. The two are equal where no further
    /// resize event was read.
    pub fn finish(self) -> (sizes: ((u16, u16), (u16, u16)))
        ensures
            sizes == (self.first(), last_size(self.first(), self.observed())),
    {
        proof {
            use_type_invariant(&self);
        }
        (self.first, self.last)
    }
}

/// A drain in which no resize event was read ends with the size that
/// started it: first and last are equal.
pub proof fn lemma_last_size_without_resize(first: (u16, u16), observed: Seq<Input>)
    requires
        forall|i: int| 0 <= i < observed.len() ==> resize_of(#[trigger] observed[i]) is None,
    ensures
        last_size(first, observed) == first,
    decreases observed.len(),
{
    if observed.len() > 0 {
        lemma_last_size_without_resize(first, observed.drop_last());
    }
}

/// A drain ends with the size of the last resize event that was read,
/// whatever was read before it and whatever was discarded after it.
pub proof fn lemma_last_size_is_last_resize(
    first: (u16, u16),
    observed: Seq<Input>,
    k: int,
    size: (u16, u16),
)
    requires
        0 <= k < observed.len(),
        resize_of(observed[k]) == Some(size),
        forall|i: int| k < i < observed.len() ==> resize_of(#[trigger] observed[i]) is None,
    ensures
        last_size(first, observed) == size,
    decreases observed.len(),
{
    if k < observed.len() - 1 {
        lemma_last_size_is_last_resize(first, observed.drop_last(), k, size);
    }
}

} // verus!
