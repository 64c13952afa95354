use vstd::prelude::*;

verus! {

/// A decoded terminal event delivered to application code.
#[derive(Debug, Clone, Copy, PartialEq, Eq, Structural)]
pub enum Event {
    /// The terminal gained focus.
    FocusGained,
    /// The terminal lost focus.
    FocusLost,
    /// A key that produced a character.
    Key(char),
    /// The terminal was resized to (columns, rows).
    Resize(u16, u16),
}

/// An event as buffered by the reader: either a user-facing event or a reply
/// to a query the library sent to the terminal.
#[derive(Debug, Clone, Copy, PartialEq, Eq, Structural)]
pub enum InternalEvent {
    /// An event for application code.
    Event(Event),
    /// A cursor-position reply: zero-based (column, row).
    CursorPosition(u16, u16),
}

} // verus!
