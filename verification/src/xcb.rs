//! Following the events of the display server.
//!
//! The connection to the display server tells when it can be read. Events
//! are then taken from it until none is left, and the wait starts again.

use vstd::prelude::*;

verus! {

/// The code that the display server gives to the event which says that a
/// property of a window has changed.
pub const PROPERTY_NOTIFY: u8 = 28;

/// What the caller has to do next to get an event.
#[derive(Clone, Copy, Debug, PartialEq, Eq, Structural)]
pub enum Step {
    /// Wait until the connection can be read.
    AwaitReadable,
    /// Ask the connection for an event.
    PollForEvent,
}

/// The stream of the events of the display server: it knows whether the
/// connection has to be waited for before it is asked again.
#[derive(Clone, Copy, Debug, PartialEq, Eq, Structural)]
pub struct XcbEventStream {
    pub would_block: bool,
}

impl XcbEventStream {
    /// A stream that has not been read yet: the connection has to be waited
    /// for first.
    pub fn new() -> (r: XcbEventStream)
        ensures
            r.would_block,
    {
        XcbEventStream { would_block: true }
    }

    /// What has to be done next.
    pub fn step(&self) -> (r: Step)
        ensures
            r == if self.would_block {
                Step::AwaitReadable
            } else {
                Step::PollForEvent
            },
    {
        if self.would_block {
            Step::AwaitReadable
        } else {
            Step::PollForEvent
        }
    }

    /// The connection can be read: it is asked for events from now on.
    pub fn readable(&mut self)
        ensures
            !final(self).would_block,
    {
        self.would_block = false;
    }

    /// The connection was asked for an event. Where it had none, it has to
    /// be waited for again. Says whether there is an event to hand on.
    pub fn polled(&mut self, found: bool) -> (r: bool)
        ensures
            r == found,
            final(self).would_block == if found {
                old(self).would_block
            } else {
                true
            },
    {
        if !found {
            self.would_block = true;
        }
        found
    }
}

/// Whether an event says that one of the given properties has changed: it is
/// a notice of a changed property, and the property is among them.
pub open spec fn is_property_change(properties: Seq<u32>, response_type: u8, atom: u32) -> bool {
    response_type == PROPERTY_NOTIFY && properties.contains(atom)
}

/// Whether an event of the given type, about the property `atom`, says that
/// one of `properties` has changed.
pub fn property_changed(properties: &Vec<u32>, response_type: u8, atom: u32) -> (r: bool)
    ensures
        r == is_property_change(properties@, response_type, atom),
{
    if response_type != PROPERTY_NOTIFY {
        return false;
    }
    let mut i: usize = 0;
    while i < properties.len()
        invariant
            i <= properties.len(),
            response_type == PROPERTY_NOTIFY,
            forall|k: int| 0 <= k < i ==> properties@[k] != atom,
        decreases properties.len() - i,
    {
        if properties[i] == atom {
            return true;
        }
        i = i + 1;
    }
    false
}

} // verus!
