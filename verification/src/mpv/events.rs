//! The events that the player sends.

use vstd::prelude::*;

verus! {

/// An event of the player, such as
/// `{"event":"property-change","name":"pause","data":true}`.
#[derive(Clone, Copy, Debug, PartialEq, Eq, Structural)]
pub enum Event {
    PropertyChange(PropertyChange),
    Seek,
}

/// A property of the player that has changed, with its new value.
#[derive(Clone, Copy, Debug, PartialEq, Eq, Structural)]
pub enum PropertyChange {
    Pause(bool),
}

} // verus!
