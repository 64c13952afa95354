use std::collections::VecDeque;
use std::time::Duration;

use term_input::cursor::{
    cursor_position_request, position, read_position_raw, settle_query, wait_outcome, Terminal,
};
use term_input::error::{Error, ErrorKind};
use term_input::event::{Event, InternalEvent};
use term_input::reader::{EventSource, InternalEventReader};

struct ScriptedSource {
    events: VecDeque<InternalEvent>,
}

impl EventSource for ScriptedSource {
    type Waker = ();

    fn try_read(&mut self, _timeout: Option<Duration>) -> Result<Option<InternalEvent>, Error> {
        Ok(self.events.pop_front())
    }

    fn waker(&self) {}
}

#[derive(Default)]
struct FakeTerminal {
    raw: bool,
    toggles: usize,
    written: Vec<u8>,
    flushed: bool,
    fail_disable: bool,
    fail_write: bool,
}

impl Terminal for FakeTerminal {
    fn raw_mode(&self) -> bool {
        self.raw
    }

    fn output(&self) -> Vec<u8> {
        self.written.clone()
    }

    fn is_raw_mode_enabled(&self) -> bool {
        self.raw
    }

    fn enable_raw_mode(&mut self) -> Result<(), Error> {
        self.raw = true;
        self.toggles += 1;
        Ok(())
    }

    fn disable_raw_mode(&mut self) -> Result<(), Error> {
        if self.fail_disable {
            return Err(Error::new(ErrorKind::Other, "cannot restore mode"));
        }
        self.raw = false;
        self.toggles += 1;
        Ok(())
    }

    fn write_all(&mut self, bytes: &[u8]) -> Result<(), Error> {
        if self.fail_write {
            return Err(Error::new(ErrorKind::Other, "write failed"));
        }
        self.written.extend_from_slice(bytes);
        Ok(())
    }

    fn flush(&mut self) -> Result<(), Error> {
        self.flushed = true;
        Ok(())
    }
}

fn reader_with(events: &[InternalEvent]) -> InternalEventReader<ScriptedSource> {
    InternalEventReader::new(
        VecDeque::new(),
        Some(ScriptedSource { events: events.to_vec().into() }),
    )
}

const RESIZE: InternalEvent = InternalEvent::Event(Event::Resize(80, 24));

#[test]
fn position_returns_reply_and_restores_raw_mode() {
    let mut reader = reader_with(&[RESIZE, InternalEvent::CursorPosition(10, 20)]);
    let mut terminal = FakeTerminal::default();
    assert_eq!(position(&mut reader, &mut terminal).unwrap(), (10, 20));
    assert!(!terminal.raw);
    assert_eq!(terminal.toggles, 2);
    assert_eq!(terminal.written, vec![0x1b, b'[', b'6', b'n']);
    assert!(terminal.flushed);
    // the resize event was kept for later readers
    assert_eq!(reader.try_read(&term_input::filter::InternalEventFilter), Some(RESIZE));
}

#[test]
fn position_in_raw_mode_leaves_mode_alone() {
    let mut reader = reader_with(&[InternalEvent::CursorPosition(0, 0)]);
    let mut terminal = FakeTerminal { raw: true, ..FakeTerminal::default() };
    assert_eq!(position(&mut reader, &mut terminal).unwrap(), (0, 0));
    assert!(terminal.raw);
    assert_eq!(terminal.toggles, 0);
}

#[test]
fn position_times_out_and_restores_raw_mode() {
    let mut reader = reader_with(&[RESIZE]);
    let mut terminal = FakeTerminal::default();
    let err = position(&mut reader, &mut terminal).unwrap_err();
    assert_eq!(err.kind(), ErrorKind::CursorTimeout);
    assert_eq!(
        err.message(),
        "The cursor position could not be read within a normal duration"
    );
    assert!(!terminal.raw);
    assert_eq!(terminal.toggles, 2);
}

#[test]
fn position_reports_query_failure_before_restore_failure() {
    let mut reader = reader_with(&[]);
    let mut terminal = FakeTerminal { fail_write: true, fail_disable: true, ..FakeTerminal::default() };
    let err = position(&mut reader, &mut terminal).unwrap_err();
    assert_eq!(err.message(), "write failed");
}

#[test]
fn position_reports_restore_failure_after_success() {
    let mut reader = reader_with(&[InternalEvent::CursorPosition(1, 2)]);
    let mut terminal = FakeTerminal { fail_disable: true, ..FakeTerminal::default() };
    let err = position(&mut reader, &mut terminal).unwrap_err();
    assert_eq!(err.message(), "cannot restore mode");
}

#[test]
fn read_position_raw_uses_buffered_reply() {
    let mut reader: InternalEventReader<ScriptedSource> = InternalEventReader::new(
        vec![RESIZE, InternalEvent::CursorPosition(3, 5), InternalEvent::CursorPosition(6, 7)]
            .into(),
        None,
    );
    assert_eq!(read_position_raw(&mut reader).unwrap(), (3, 5));
    assert_eq!(read_position_raw(&mut reader).unwrap(), (6, 7));
}

#[test]
fn cursor_request_is_esc_bracket_6_n() {
    assert_eq!(cursor_position_request(), b"\x1B[6n".to_vec());
}

#[test]
fn settle_query_orders_failures() {
    let ok: Result<(u16, u16), Error> = Ok((4, 2));
    assert_eq!(settle_query(ok.clone(), Ok(())).unwrap(), (4, 2));
    let restore = Err(Error::new(ErrorKind::Other, "restore"));
    assert_eq!(settle_query(ok, restore.clone()).unwrap_err().message(), "restore");
    let query = Err(Error::new(ErrorKind::CursorTimeout, "query"));
    assert_eq!(settle_query(query, restore).unwrap_err().message(), "query");
}

#[test]
fn wait_outcome_decides_each_wait() {
    let timeout = wait_outcome(Ok(false), None).unwrap().unwrap_err();
    assert_eq!(timeout.kind(), ErrorKind::CursorTimeout);
    assert_eq!(
        timeout.message(),
        "The cursor position could not be read within a normal duration"
    );
    assert!(wait_outcome(Err(Error::new(ErrorKind::Other, "transient")), None).is_none());
    assert_eq!(
        wait_outcome(Ok(true), Some(Ok(InternalEvent::CursorPosition(10, 20)))),
        Some(Ok((10, 20)))
    );
    assert!(wait_outcome(Ok(true), Some(Ok(RESIZE))).is_none());
    assert!(wait_outcome(Ok(true), Some(Err(Error::new(ErrorKind::Other, "x")))).is_none());
}

#[test]
fn position_retries_after_failed_wait() {
    struct FlakySource {
        failed: bool,
    }
    impl EventSource for FlakySource {
        type Waker = ();
        fn try_read(&mut self, _t: Option<Duration>) -> Result<Option<InternalEvent>, Error> {
            if !self.failed {
                self.failed = true;
                return Err(Error::new(ErrorKind::Other, "transient"));
            }
            Ok(Some(InternalEvent::CursorPosition(5, 6)))
        }
        fn waker(&self) {}
    }
    let mut reader = InternalEventReader::new(VecDeque::new(), Some(FlakySource { failed: false }));
    let mut terminal = FakeTerminal::default();
    assert_eq!(position(&mut reader, &mut terminal).unwrap(), (5, 6));
    assert!(!terminal.raw);
}
