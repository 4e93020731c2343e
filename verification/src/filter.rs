//! Filters: which signals a call is willing to take from the shared stream.

use vstd::prelude::*;
use crate::signal::{Shape, Signal};

verus! {

/// A predicate on signals, one value per class of consumer.
///
/// A filter has no state: whether it accepts a signal depends on the filter
/// and the signal alone, so it can be asked again about a buffered signal and
/// give the same answer.
#[derive(Debug, Clone, Copy, PartialEq, Eq, Hash, Structural)]
pub enum Filter {
    /// Accepts every signal: the filter of a direct read.
    Any,
    /// Accepts the signals of one shape: the filter of an internal query.
    Only(Shape),
}

impl Filter {
    /// Whether this filter accepts `signal`.
    pub open spec fn spec_accepts(&self, signal: &Signal) -> bool {
        match *self {
            Filter::Any => true,
            Filter::Only(shape) => signal.shape() == shape,
        }
    }

    /// Whether this filter accepts `signal`.
    #[verifier::when_used_as_spec(spec_accepts)]
    pub fn accepts(&self, signal: &Signal) -> (accepted: bool)
        ensures
            accepted == self.spec_accepts(signal),
    {
        match self {
            Filter::Any => true,
            Filter::Only(shape) => signal.shape() == *shape,
        }
    }
}

/// A filter cannot tell two signals of one shape apart.
pub proof fn lemma_accepts_by_shape(filter: Filter, a: Signal, b: Signal)
    requires
        a.shape() == b.shape(),
    ensures
        filter.accepts(&a) == filter.accepts(&b),
{
}

} // verus!
