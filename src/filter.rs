use vstd::prelude::*;

use crate::event::InternalEvent;

verus! {

/// A predicate over buffered events, supplied per read or poll call.
pub trait Filter {
    /// Whether the filter accepts `event`.
    spec fn accepts(&self, event: InternalEvent) -> bool;

    fn eval(&self, event: &InternalEvent) -> (r: bool)
        ensures
            r == self.accepts(*event),
    ;
}

/// Accepts cursor-position replies only.
#[derive(Debug, Clone, Copy)]
pub struct CursorPositionFilter;

impl Filter for CursorPositionFilter {
    open spec fn accepts(&self, event: InternalEvent) -> bool {
        event is CursorPosition
    }

    fn eval(&self, event: &InternalEvent) -> (r: bool) {
        match event {
            InternalEvent::CursorPosition(_, _) => true,
            _ => false,
        }
    }
}

/// Accepts user-facing events only.
#[derive(Debug, Clone, Copy)]
pub struct EventFilter;

impl Filter for EventFilter {
    open spec fn accepts(&self, event: InternalEvent) -> bool {
        event is Event
    }

    fn eval(&self, event: &InternalEvent) -> (r: bool) {
        match event {
            InternalEvent::Event(_) => true,
            _ => false,
        }
    }
}

/// Accepts every event.
#[derive(Debug, Clone, Copy)]
pub struct InternalEventFilter;

impl Filter for InternalEventFilter {
    open spec fn accepts(&self, event: InternalEvent) -> bool {
        true
    }

    fn eval(&self, event: &InternalEvent) -> (r: bool) {
        true
    }
}

} // verus!
