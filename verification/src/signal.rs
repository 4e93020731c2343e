//! Signals: the decoded units that the platform's event decoder produces,
//! before they are classified for the public stream.

use vstd::prelude::*;
use crate::event::Event;

verus! {

/// One decoded unit of terminal input.
///
/// The decoder creates a signal per physical input unit. A signal is handed
/// to exactly one caller and never changed on the way.
#[derive(Debug, PartialEq, Eq)]
pub enum Signal {
    /// A discrete event: a key, a mouse action, a focus change, a resize.
    DiscreteEvent(Event),
    /// A block of pasted text.
    PasteChunk(String),
}

impl Clone for Signal {
    /// A copy with the same content.
    fn clone(&self) -> (copy: Signal)
        ensures
            copy == *self,
    {
        match self {
            Signal::DiscreteEvent(event) => Signal::DiscreteEvent(*event),
            Signal::PasteChunk(text) => Signal::PasteChunk(text.clone()),
        }
    }
}

/// The shape of a signal: what a narrow filter tells signals apart by.
#[derive(Debug, Clone, Copy, PartialEq, Eq, Hash, Structural)]
pub enum Shape {
    Key,
    Mouse,
    FocusGained,
    FocusLost,
    Resize,
    Paste,
}

impl Signal {
    /// The shape of this signal.
    pub open spec fn spec_shape(&self) -> Shape {
        match *self {
            Signal::DiscreteEvent(Event::Key(_)) => Shape::Key,
            Signal::DiscreteEvent(Event::Mouse(_)) => Shape::Mouse,
            Signal::DiscreteEvent(Event::FocusGained) => Shape::FocusGained,
            Signal::DiscreteEvent(Event::FocusLost) => Shape::FocusLost,
            Signal::DiscreteEvent(Event::Resize(_, _)) => Shape::Resize,
            Signal::PasteChunk(_) => Shape::Paste,
        }
    }

    /// The shape of this signal.
    #[verifier::when_used_as_spec(spec_shape)]
    pub fn shape(&self) -> (shape: Shape)
        ensures
            shape == self.spec_shape(),
    {
        match self {
            Signal::DiscreteEvent(Event::Key(_)) => Shape::Key,
            Signal::DiscreteEvent(Event::Mouse(_)) => Shape::Mouse,
            Signal::DiscreteEvent(Event::FocusGained) => Shape::FocusGained,
            Signal::DiscreteEvent(Event::FocusLost) => Shape::FocusLost,
            Signal::DiscreteEvent(Event::Resize(_, _)) => Shape::Resize,
            Signal::PasteChunk(_) => Shape::Paste,
        }
    }
}

} // verus!
