//! Sets of readiness events.
use vstd::prelude::*;

verus! {

/// The events that a descriptor is watched for, or that happened to it.
#[derive(Clone, Copy, Debug, PartialEq, Eq, Structural)]
pub struct EventSet {
    pub input: bool,
    pub output: bool,
    pub error: bool,
    pub hang_up: bool,
    pub read_hang_up: bool,
    pub edge_triggered: bool,
}

impl EventSet {
    /// No event.
    pub open spec fn none() -> EventSet {
        EventSet {
            input: false,
            output: false,
            error: false,
            hang_up: false,
            read_hang_up: false,
            edge_triggered: false,
        }
    }

    /// Data can be read.
    pub open spec fn only_input() -> EventSet {
        EventSet { input: true, ..EventSet::none() }
    }

    /// Data can be written.
    pub open spec fn only_output() -> EventSet {
        EventSet { output: true, ..EventSet::none() }
    }

    /// Data can be read or written.
    pub open spec fn both() -> EventSet {
        EventSet { input: true, output: true, ..EventSet::none() }
    }

    pub fn empty() -> (result: EventSet)
        ensures
            result == EventSet::none(),
    {
        EventSet {
            input: false,
            output: false,
            error: false,
            hang_up: false,
            read_hang_up: false,
            edge_triggered: false,
        }
    }

    pub fn readable() -> (result: EventSet)
        ensures
            result == EventSet::only_input(),
    {
        EventSet { input: true, ..EventSet::empty() }
    }

    pub fn writable() -> (result: EventSet)
        ensures
            result == EventSet::only_output(),
    {
        EventSet { output: true, ..EventSet::empty() }
    }

    pub fn readable_writable() -> (result: EventSet)
        ensures
            result == EventSet::both(),
    {
        EventSet { input: true, output: true, ..EventSet::empty() }
    }
}

} // verus!
