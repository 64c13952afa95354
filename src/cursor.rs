use vstd::prelude::*;

use std::time::Duration;

use crate::error::{Error, ErrorKind};
use crate::event::InternalEvent;
use crate::filter::CursorPositionFilter;
use crate::reader::{has_match, is_first_match, EventSource, InternalEventReader};

verus! {

/// How long one wait for the terminal's reply may take, in milliseconds.
pub const CURSOR_REPLY_WAIT_MILLIS: u64 = 2000;

/// The most waits one query performs when waits keep failing.
pub const MAX_QUERY_ATTEMPTS: u64 = 0xffff_ffff_ffff_ffff;

/// The terminal the cursor query talks to: its input mode and its output.
pub trait Terminal {
    /// Whether raw mode is on.
    spec fn raw_mode(&self) -> bool;

    /// The bytes written to the terminal so far.
    spec fn output(&self) -> Vec<u8>;

    fn is_raw_mode_enabled(&self) -> (r: bool)
        ensures
            r == self.raw_mode(),
    ;

    fn enable_raw_mode(&mut self) -> (r: Result<(), Error>)
        ensures
            r is Ok ==> final(self).raw_mode(),
            final(self).output()@ == old(self).output()@,
    ;

    fn disable_raw_mode(&mut self) -> (r: Result<(), Error>)
        ensures
            r is Ok ==> !final(self).raw_mode(),
            r is Err ==> final(self).raw_mode() == old(self).raw_mode(),
            final(self).output()@ == old(self).output()@,
    ;

    fn write_all(&mut self, bytes: &[u8]) -> (r: Result<(), Error>)
        ensures
            final(self).raw_mode() == old(self).raw_mode(),
            r is Ok ==> final(self).output()@ == old(self).output()@ + bytes@,
    ;

    fn flush(&mut self) -> (r: Result<(), Error>)
        ensures
            final(self).raw_mode() == old(self).raw_mode(),
            final(self).output()@ == old(self).output()@,
    ;
}

/// The control sequence `ESC [ 6 n`.
pub open spec fn cursor_request_bytes() -> Seq<u8> {
    seq![0x1bu8, 0x5bu8, 0x36u8, 0x6eu8]
}

/// The coordinates a cursor-position reply carries.
pub open spec fn reply_coordinates(e: InternalEvent) -> (u16, u16) {
    match e {
        InternalEvent::CursorPosition(x, y) => (x, y),
        _ => (0, 0),
    }
}

/// The request that asks the terminal to report the cursor position.
pub fn cursor_position_request() -> (r: Vec<u8>)
    ensures
        r@ == cursor_request_bytes(),
{
    let r: Vec<u8> = vec![0x1b, 0x5b, 0x36, 0x6e];
    assert(r@ =~= cursor_request_bytes());
    r
}

/// The error of a query the terminal did not answer in time.
pub fn cursor_timeout() -> (r: Error)
    ensures
        r.spec_kind() == ErrorKind::CursorTimeout,
        r.spec_message() == "The cursor position could not be read within a normal duration"@,
{
    Error::new(
        ErrorKind::CursorTimeout,
        "The cursor position could not be read within a normal duration",
    )
}

/// What one wait for the reply decides. A wait that ended without a reply
/// (`Ok(false)`) ends the query with a timeout; a failed wait is retried
/// (`None`); after a successful wait the reply read from the reader ends the
/// query with its coordinates when it is a cursor-position reply, and the
/// query goes on otherwise.
pub fn wait_outcome(waited: Result<bool, Error>, reply: Option<Result<InternalEvent, Error>>) -> (r:
    Option<Result<(u16, u16), Error>>)
    ensures
        waited == Ok::<bool, Error>(false) ==> r is Some && r->Some_0 is Err
            && r->Some_0->Err_0.spec_kind() == ErrorKind::CursorTimeout,
        waited is Err ==> r is None,
        waited == Ok::<bool, Error>(true) ==> r == match reply {
            Some(Ok(InternalEvent::CursorPosition(x, y))) => Some(
                Ok::<(u16, u16), Error>((x, y)),
            ),
            _ => None::<Result<(u16, u16), Error>>,
        },
{
    match waited {
        Err(_) => None,
        Ok(false) => Some(Err(cursor_timeout())),
        Ok(true) => match reply {
            Some(Ok(InternalEvent::CursorPosition(x, y))) => Some(Ok((x, y))),
            _ => None,
        },
    }
}

/// The outcome of a query run in raw mode that was switched on for it:
/// the query's own failure comes first, then a failure to restore the mode.
pub fn settle_query(pos: Result<(u16, u16), Error>, restored: Result<(), Error>) -> (r: Result<
    (u16, u16),
    Error,
>)
    ensures
        pos is Err ==> r == pos,
        pos is Ok && restored is Err ==> r == Err::<(u16, u16), Error>(restored->Err_0),
        pos is Ok && restored is Ok ==> r == pos,
{
    match pos {
        Err(e) => Err(e),
        Ok(p) => match restored {
            Err(e) => Err(e),
            Ok(()) => Ok(p),
        },
    }
}

/// Waits for the terminal's cursor-position reply, the request having been
/// sent. Each wait lasts up to two seconds; a wait that ends without a reply
/// fails the query with a timeout, and a failed wait is retried.
pub fn read_position_raw<S: EventSource>(reader: &mut InternalEventReader<S>) -> (r: Result<
    (u16, u16),
    Error,
>)
    ensures
        final(reader).has_source() == old(reader).has_source(),
        has_match(old(reader).queue(), CursorPositionFilter) ==> exists|i: int|
            is_first_match(old(reader).queue(), CursorPositionFilter, i) && r == Ok::<
                (u16, u16),
                Error,
            >(reply_coordinates(old(reader).queue()[i])) && final(reader).queue() == old(reader).queue().remove(i),
        r is Ok ==> exists|e: InternalEvent|
            e is CursorPosition && r == Ok::<(u16, u16), Error>(reply_coordinates(e)),
        r is Err ==> r->Err_0.spec_kind() == ErrorKind::CursorTimeout,
{
    let filter = CursorPositionFilter;
    let mut attempts: u64 = 0;
    while attempts < MAX_QUERY_ATTEMPTS
        invariant
            reader.has_source() == old(reader).has_source(),
            attempts == 0 ==> reader.queue() == old(reader).queue(),
            attempts > 0 ==> !has_match(old(reader).queue(), filter),
        decreases MAX_QUERY_ATTEMPTS - attempts,
    {
        let waited = reader.poll(Some(Duration::from_millis(CURSOR_REPLY_WAIT_MILLIS)), &filter);
        let reply = match waited {
            Ok(true) => Some(reader.read(&filter)),
            _ => None,
        };
        let ghost reply_g = reply;
        match wait_outcome(waited, reply) {
            Some(outcome) => {
                proof {
                    match reply_g {
                        Some(Ok(e)) => {
                            assert(e is CursorPosition);
                            assert(outcome == Ok::<(u16, u16), Error>(reply_coordinates(e)));
                        },
                        _ => {},
                    }
                }
                return outcome;
            },
            None => {},
        }
        attempts = attempts + 1;
    }
    Err(cursor_timeout())
}

/// Sends the cursor-position request through the terminal, then waits for
/// the reply.
fn query_position<S: EventSource, T: Terminal>(
    reader: &mut InternalEventReader<S>,
    terminal: &mut T,
) -> (r: Result<(u16, u16), Error>)
    ensures
        final(reader).has_source() == old(reader).has_source(),
        final(terminal).raw_mode() == old(terminal).raw_mode(),
        r is Ok ==> final(terminal).output()@ == old(terminal).output()@ + cursor_request_bytes(),
        r is Ok ==> exists|e: InternalEvent|
            e is CursorPosition && r == Ok::<(u16, u16), Error>(reply_coordinates(e)),
        r is Ok && has_match(old(reader).queue(), CursorPositionFilter) ==> exists|i: int|
            is_first_match(old(reader).queue(), CursorPositionFilter, i) && r == Ok::<
                (u16, u16),
                Error,
            >(reply_coordinates(old(reader).queue()[i])) && final(reader).queue() == old(reader).queue().remove(i),
{
    let request = cursor_position_request();
    match terminal.write_all(request.as_slice()) {
        Err(e) => {
            return Err(e);
        },
        Ok(()) => {},
    }
    match terminal.flush() {
        Err(e) => {
            return Err(e);
        },
        Ok(()) => {},
    }
    read_position_raw(reader)
}

/// The cursor position (column, row), the top left cell being `(0, 0)`.
/// The terminal is asked for it and the reply is read from `reader`. When
/// raw mode is off it is switched on for the query and off again whatever
/// the outcome; a failure of the query is reported before a failure to
/// switch the mode back, and a failure to switch it on ends the call.
pub fn position<S: EventSource, T: Terminal>(
    reader: &mut InternalEventReader<S>,
    terminal: &mut T,
) -> (r: Result<(u16, u16), Error>)
    ensures
        final(reader).has_source() == old(reader).has_source(),
        old(terminal).raw_mode() ==> final(terminal).raw_mode(),
        !old(terminal).raw_mode() && r is Ok ==> !final(terminal).raw_mode(),
        r is Ok ==> final(terminal).output()@ == old(terminal).output()@ + cursor_request_bytes(),
        r is Ok ==> exists|e: InternalEvent|
            e is CursorPosition && r == Ok::<(u16, u16), Error>(reply_coordinates(e)),
        r is Ok && has_match(old(reader).queue(), CursorPositionFilter) ==> exists|i: int|
            is_first_match(old(reader).queue(), CursorPositionFilter, i) && r == Ok::<
                (u16, u16),
                Error,
            >(reply_coordinates(old(reader).queue()[i])) && final(reader).queue() == old(reader).queue().remove(i),
{
    if terminal.is_raw_mode_enabled() {
        query_position(reader, terminal)
    } else {
        match terminal.enable_raw_mode() {
            Err(e) => {
                return Err(e);
            },
            Ok(()) => {},
        }
        let pos = query_position(reader, terminal);
        let restored = terminal.disable_raw_mode();
        settle_query(pos, restored)
    }
}

} // verus!
