use vstd::prelude::*;

use std::collections::VecDeque;
use std::time::Duration;

use crate::error::{Error, ErrorKind};
use crate::event::InternalEvent;
use crate::filter::Filter;
use crate::timeout::PollTimeout;

verus! {

/// The most source results one `poll` call examines. Reaching it ends the
/// call as an elapsed deadline would; at one result per nanosecond it takes
/// over five centuries.
pub const MAX_SOURCE_PROBES: u64 = 0xffff_ffff_ffff_ffff;

/// The most unsuccessful waits one `read` call performs before it reports
/// that it was interrupted.
pub const MAX_READ_WAITS: u64 = 0xffff_ffff_ffff_ffff;

/// A producer of decoded events, one per call.
pub trait EventSource {
    /// The handle that cancels a wait of this source from another thread.
    type Waker;

    /// The next decoded event, `Ok(None)` when none came within `timeout`
    /// (`None`: no bound), or the failure that stopped the source. An error of
    /// kind `Interrupted` reports that the wait was cancelled.
    fn try_read(&mut self, timeout: Option<Duration>) -> Result<Option<InternalEvent>, Error>;

    /// A handle whose signal makes the current or next `try_read` return early.
    fn waker(&self) -> Self::Waker;
}

/// Some event of `q` is accepted by `f`.
pub open spec fn has_match<F: Filter>(q: Seq<InternalEvent>, f: F) -> bool {
    exists|i: int| 0 <= i < q.len() && f.accepts(#[trigger] q[i])
}

/// No event of `q` is accepted by `f`.
pub open spec fn no_match<F: Filter>(q: Seq<InternalEvent>, f: F) -> bool {
    forall|i: int| 0 <= i < q.len() ==> !f.accepts(#[trigger] q[i])
}

/// `i` is the position of the first event of `q` that `f` accepts.
pub open spec fn is_first_match<F: Filter>(q: Seq<InternalEvent>, f: F, i: int) -> bool {
    0 <= i < q.len() && f.accepts(q[i]) && no_match(q.take(i), f)
}

/// The queue a `try_read` with `f` leaves behind.
pub open spec fn after_scan<F: Filter>(q: Seq<InternalEvent>, f: F) -> Seq<InternalEvent> {
    if has_match(q, f) {
        q.remove(choose|i: int| is_first_match(q, f, i))
    } else {
        q
    }
}

/// The queue `n` successive `try_read` calls with `f` leave behind.
pub open spec fn after_scans<F: Filter>(q: Seq<InternalEvent>, f: F, n: nat) -> Seq<InternalEvent>
    decreases n,
{
    if n == 0 {
        q
    } else {
        after_scans(after_scan(q, f), f, (n - 1) as nat)
    }
}

/// There is one first match.
proof fn lemma_first_match_unique<F: Filter>(q: Seq<InternalEvent>, f: F, i: int, j: int)
    requires
        is_first_match(q, f, i),
        is_first_match(q, f, j),
    ensures
        i == j,
{
    if i < j {
        assert(q.take(j)[i] == q[i]);
    } else if j < i {
        assert(q.take(i)[j] == q[j]);
    }
}

/// Two runs of rejected events make one.
proof fn lemma_no_match_concat<F: Filter>(a: Seq<InternalEvent>, b: Seq<InternalEvent>, f: F)
    requires
        no_match(a, f),
        no_match(b, f),
    ensures
        no_match(a + b, f),
{
    assert forall|i: int| 0 <= i < (a + b).len() implies !f.accepts(#[trigger] (a + b)[i]) by {
        if i < a.len() {
            assert((a + b)[i] == a[i]);
        } else {
            assert((a + b)[i] == b[i - a.len()]);
        }
    }
}

/// What a source-driven `poll` leaves behind, given the queue and skip buffer
/// before (`q`, `s`) and after (`q2`, `s2`): the events it pulled from the
/// source that `f` rejected (`got`) are kept in order, and a winner goes to
/// the front of the queue.
pub open spec fn polled<F: Filter>(
    q: Seq<InternalEvent>,
    s: Seq<InternalEvent>,
    q2: Seq<InternalEvent>,
    s2: Seq<InternalEvent>,
    r: Result<bool, Error>,
    f: F,
) -> bool {
    match r {
        Ok(found) => if found {
            q2.len() > 0 && f.accepts(q2[0]) && s2.len() == 0 && exists|got: Seq<InternalEvent>|
                no_match(got, f) && q2 == seq![q2[0]] + q + s + got
        } else {
            exists|got: Seq<InternalEvent>|
                #[trigger] no_match(got, f) && ((q2 == q + s + got && s2.len() == 0) || (q2 == q && s2 == s
                    + got))
        },
        Err(e) => e.spec_kind() != ErrorKind::Interrupted && exists|got: Seq<InternalEvent>|
            no_match(got, f) && q2 == q && s2 == s + got,
    }
}

/// When a filter accepts exactly one buffered event, `try_read` takes that
/// event and leaves all the others in their original relative order.
pub proof fn lemma_single_match_keeps_order<F: Filter>(q: Seq<InternalEvent>, f: F, k: int)
    requires
        0 <= k < q.len(),
        f.accepts(q[k]),
        forall|j: int| 0 <= j < q.len() && j != k ==> !f.accepts(#[trigger] q[j]),
    ensures
        is_first_match(q, f, k),
        forall|i: int| #[trigger] is_first_match(q, f, i) ==> i == k,
        after_scan(q, f) == q.remove(k),
{
    assert forall|j: int| 0 <= j < q.take(k).len() implies !f.accepts(#[trigger] q.take(k)[j]) by {
        assert(q.take(k)[j] == q[j]);
    }
    assert(is_first_match(q, f, k));
    assert forall|i: int| #[trigger] is_first_match(q, f, i) implies i == k by {
        lemma_first_match_unique(q, f, i, k);
    }
    assert(has_match(q, f));
}

/// When a `poll` on an empty queue and skip buffer pulls a winner `e` in
/// front of the events `got` it rejected, the next `try_read` with the same
/// filter takes `e`, and the events left are `got` in the order the source
/// produced them.
pub proof fn lemma_pulled_winner_leaves_rest_in_order<F: Filter>(
    e: InternalEvent,
    got: Seq<InternalEvent>,
    f: F,
)
    requires
        f.accepts(e),
        no_match(got, f),
    ensures
        is_first_match(seq![e] + got, f, 0),
        forall|i: int| #[trigger] is_first_match(seq![e] + got, f, i) ==> i == 0,
        after_scan(seq![e] + got, f) == got,
{
    let q = seq![e] + got;
    assert(q.take(0) =~= Seq::<InternalEvent>::empty());
    assert forall|i: int| #[trigger] is_first_match(q, f, i) implies i == 0 by {
        if i > 0 {
            assert(q.take(i)[0] == e);
        }
    }
    assert(q.remove(0) =~= got);
    assert(q[0] == e);
    assert(has_match(q, f));
    assert(is_first_match(q, f, 0));
    let c = choose|c: int| is_first_match(q, f, c);
    assert(c == 0);
}

/// An empty queue holds no match for any filter, so a `poll` on an empty
/// reader without a source fails as unavailable whatever its timeout.
pub proof fn lemma_empty_queue_has_no_match<F: Filter>(q: Seq<InternalEvent>, f: F)
    requires
        q.len() == 0,
    ensures
        !has_match(q, f),
{
}

/// With a filter that rejects every buffered event, any number of `try_read`
/// calls leave the queue, contents and order, as it was.
pub proof fn lemma_unmatched_scans_change_nothing<F: Filter>(q: Seq<InternalEvent>, f: F, n: nat)
    requires
        no_match(q, f),
    ensures
        after_scans(q, f, n) == q,
    decreases n,
{
    if n > 0 {
        assert(after_scan(q, f) == q);
        lemma_unmatched_scans_change_nothing(q, f, (n - 1) as nat);
    }
}

/// A buffered, filtering reader of events over an optional event source.
pub struct InternalEventReader<S> {
    events: VecDeque<InternalEvent>,
    source: Option<S>,
    skipped_events: Vec<InternalEvent>,
}

impl<S: EventSource> InternalEventReader<S> {
    /// The buffered events, front first.
    pub closed spec fn queue(&self) -> Seq<InternalEvent> {
        self.events@
    }

    /// Events a `poll` took from the source and rejected, not yet returned to
    /// the queue because that call was cut short.
    pub closed spec fn skipped(&self) -> Seq<InternalEvent> {
        self.skipped_events@
    }

    pub closed spec fn has_source(&self) -> bool {
        self.source is Some
    }

    /// The event source, when there is one.
    pub closed spec fn source(&self) -> Option<S> {
        self.source
    }

    /// A reader over `events`, with `source` as its source when there is one.
    pub fn new(events: VecDeque<InternalEvent>, source: Option<S>) -> (r: Self)
        ensures
            r.queue() == events@,
            r.skipped().len() == 0,
            r.has_source() == (source is Some),
    {
        InternalEventReader { events, source, skipped_events: Vec::with_capacity(32) }
    }

    /// An empty reader over the outcome of opening a source; a source that
    /// failed to open leaves the reader without one.
    pub fn from_source(source: Result<S, Error>) -> (r: Self)
        ensures
            r.queue().len() == 0,
            r.skipped().len() == 0,
            r.has_source() == (source is Ok),
    {
        InternalEventReader::new(VecDeque::with_capacity(32), source.ok())
    }

    /// The cancellation handle of the source.
    pub fn waker(&self) -> (r: Result<S::Waker, Error>)
        ensures
            r is Ok == self.has_source(),
            r is Err ==> r->Err_0.spec_kind() == ErrorKind::SourceUnavailable,
    {
        match &self.source {
            Some(source) => Ok(source.waker()),
            None => Err(Error::source_unavailable()),
        }
    }

    /// Takes out the first buffered event that `filter` accepts; the events
    /// passed over go back in front, so the others keep their order. The
    /// source is never consulted.
    pub fn try_read<F: Filter>(&mut self, filter: &F) -> (r: Option<InternalEvent>)
        ensures
            final(self).skipped() == old(self).skipped(),
            final(self).has_source() == old(self).has_source(),
            final(self).source() == old(self).source(),
            r is Some == has_match(old(self).queue(), *filter),
            final(self).queue() == after_scan(old(self).queue(), *filter),
            r is None ==> final(self).queue() == old(self).queue(),
            r is Some ==> filter.accepts(r->Some_0),
            r is Some ==> exists|i: int|
                is_first_match(old(self).queue(), *filter, i) && r == Some(old(self).queue()[i])
                    && final(self).queue() == old(self).queue().remove(i),
    {
        let ghost q0 = self.events@;
        let len = self.events.len();
        let mut passed: Vec<InternalEvent> = Vec::new();
        let mut result: Option<InternalEvent> = None;
        let mut i: usize = 0;
        while i < len && result.is_none()
            invariant
                len == q0.len(),
                i <= len,
                self.skipped_events == old(self).skipped_events,
                self.source == old(self).source,
                self.events@ == q0.skip(i as int),
                no_match(passed@, *filter),
                result is None ==> passed@ == q0.take(i as int),
                result is Some ==> i > 0 && passed@ == q0.take(i - 1) && result == Some(q0[i - 1])
                    && filter.accepts(q0[i - 1]),
            decreases len - i,
        {
            let event = self.events.pop_front().unwrap();
            if filter.eval(&event) {
                result = Some(event);
            } else {
                passed.push(event);
                assert(passed@ =~= q0.take(i + 1));
            }
            i = i + 1;
        }
        let ghost rest = self.events@;
        let n = passed.len();
        let mut j: usize = n;
        while j > 0
            invariant
                n == passed.len(),
                j <= n,
                self.skipped_events == old(self).skipped_events,
                self.source == old(self).source,
                self.events@ == passed@.skip(j as int) + rest,
            decreases j,
        {
            let event = passed[j - 1];
            self.events.push_front(event);
            assert(passed@.skip(j - 1) =~= seq![event] + passed@.skip(j as int));
            j = j - 1;
        }
        assert(passed@.skip(0) =~= passed@);
        if result.is_none() {
            assert(self.events@ =~= q0);
            assert(!has_match(q0, *filter)) by {
                assert(q0.take(len as int) =~= q0);
            }
        } else {
            assert(is_first_match(q0, *filter, i - 1));
            assert(self.events@ =~= q0.remove(i - 1));
            let ghost k = i - 1;
            assert(is_first_match(old(self).queue(), *filter, k));
            let ghost c = choose|c: int| is_first_match(q0, *filter, c);
            proof {
                lemma_first_match_unique(q0, *filter, c, k);
            }
        }
        result
    }

    /// Waits, up to `timeout` (`None`: without bound), until an event that
    /// `filter` accepts is buffered. A buffered match answers at once and
    /// leaves everything as it is. Otherwise events are pulled from the
    /// source: the first accepted one goes to the front of the queue, the
    /// rejected ones behind the queue in the order they came. A cancelled wait
    /// answers `Ok(false)`; any other source failure is passed on.
    pub fn poll<F: Filter>(&mut self, timeout: Option<Duration>, filter: &F) -> (r: Result<
        bool,
        Error,
    >)
        ensures
            final(self).has_source() == old(self).has_source(),
            has_match(old(self).queue(), *filter) ==> r == Ok::<bool, Error>(true) && *final(self)
                == *old(self),
            !has_match(old(self).queue(), *filter) && !old(self).has_source() ==> r is Err
                && r->Err_0.spec_kind() == ErrorKind::SourceUnavailable && final(self).queue()
                == old(self).queue() && final(self).skipped() == old(self).skipped(),
            !has_match(old(self).queue(), *filter) && old(self).has_source() ==> polled(
                old(self).queue(),
                old(self).skipped(),
                final(self).queue(),
                final(self).skipped(),
                r,
                *filter,
            ),
    {
        let ghost q0 = self.events@;
        let ghost s0 = self.skipped_events@;
        let len = self.events.len();
        let mut k: usize = 0;
        while k < len
            invariant
                len == self.events@.len(),
                k <= len,
                *self == *old(self),
                forall|j: int| 0 <= j < k ==> !filter.accepts(#[trigger] self.events@[j]),
            decreases len - k,
        {
            if filter.eval(&self.events[k]) {
                return Ok(true);
            }
            k = k + 1;
        }
        assert(!has_match(q0, *filter));
        let mut source = match self.source.take() {
            Some(source) => source,
            None => {
                return Err(Error::source_unavailable());
            },
        };
        let poll_timeout = PollTimeout::new(timeout);
        let ghost mut got: Seq<InternalEvent> = Seq::empty();
        let mut probes: u64 = 0;
        while probes < MAX_SOURCE_PROBES
            invariant
                self.events@ == q0,
                self.skipped_events@ == s0 + got,
                no_match(got, *filter),
                self.source is None,
                old(self).source is Some,
                !has_match(q0, *filter),
                q0 == old(self).events@,
                s0 == old(self).skipped_events@,
            decreases MAX_SOURCE_PROBES - probes,
        {
            probes = probes + 1;
            let res = source.try_read(poll_timeout.leftover());
            let ghost res_g = res;
            match self.take_source_result(res, filter) {
                Some(outcome) => {
                    self.source = Some(source);
                    proof {
                        match res_g {
                            Ok(Some(event)) => {
                                assert(self.events@ =~= seq![event] + q0 + s0 + got);
                            },
                            _ => {
                                assert(self.skipped_events@ == s0 + got);
                                assert(no_match(got, *filter));
                            },
                        }
                    }
                    return outcome;
                },
                None => {
                    proof {
                        match res_g {
                            Ok(Some(event)) => {
                                got = got.push(event);
                                assert(self.skipped_events@ =~= s0 + got);
                            },
                            _ => {},
                        }
                    }
                },
            }
            if poll_timeout.elapsed() {
                self.restore_skipped();
                self.source = Some(source);
                assert(self.events@ =~= q0 + s0 + got);
                assert(no_match(got, *filter));
                return Ok(false);
            }
        }
        self.restore_skipped();
        self.source = Some(source);
        assert(self.events@ =~= q0 + s0 + got);
        assert(no_match(got, *filter));
        Ok(false)
    }

    /// Takes one result of the source into the reader. An event that `filter`
    /// accepts ends the wait: the skip buffer goes behind the queue and the
    /// event in front of it, `Some(Ok(true))`. A rejected event joins the
    /// skip buffer and the wait goes on (`None`), as it does when nothing
    /// came. A cancelled wait ends it with `Some(Ok(false))`, any other
    /// failure with that failure, leaving the queue and skip buffer as they
    /// were.
    pub fn take_source_result<F: Filter>(
        &mut self,
        res: Result<Option<InternalEvent>, Error>,
        filter: &F,
    ) -> (r: Option<Result<bool, Error>>)
        ensures
            final(self).source() == old(self).source(),
            match res {
                Ok(Some(e)) => if filter.accepts(e) {
                    r == Some(Ok::<bool, Error>(true)) && final(self).queue() == seq![e] + old(self).queue() + old(self).skipped() && final(self).skipped().len() == 0
                } else {
                    r is None && final(self).queue() == old(self).queue() && final(self).skipped() == old(self).skipped().push(e)
                },
                Ok(None) => r is None && final(self).queue() == old(self).queue() && final(self).skipped() == old(self).skipped(),
                Err(e) => final(self).queue() == old(self).queue() && final(self).skipped() == old(self).skipped() && if e.spec_kind() == ErrorKind::Interrupted {
                    r == Some(Ok::<bool, Error>(false))
                } else {
                    r == Some(Err::<bool, Error>(e))
                },
            },
    {
        match res {
            Err(e) => {
                if e.is_interrupted() {
                    Some(Ok(false))
                } else {
                    Some(Err(e))
                }
            },
            Ok(None) => None,
            Ok(Some(event)) => {
                if filter.eval(&event) {
                    self.restore_skipped();
                    self.events.push_front(event);
                    assert(self.events@ =~= seq![event] + old(self).events@ + old(self).skipped_events@);
                    Some(Ok(true))
                } else {
                    self.skipped_events.push(event);
                    None
                }
            },
        }
    }

    /// Takes out the first event that `filter` accepts, waiting on the
    /// source, without a deadline, while none is buffered. Source failures
    /// are passed on. Events pulled from the source and rejected stay
    /// buffered, in the order they came, behind the events already there.
    pub fn read<F: Filter>(&mut self, filter: &F) -> (r: Result<InternalEvent, Error>)
        ensures
            final(self).has_source() == old(self).has_source(),
            r is Ok ==> filter.accepts(r->Ok_0),
            has_match(old(self).queue(), *filter) ==> exists|i: int|
                is_first_match(old(self).queue(), *filter, i) && r == Ok::<InternalEvent, Error>(
                    old(self).queue()[i],
                ) && final(self).queue() == old(self).queue().remove(i) && final(self).skipped()
                    == old(self).skipped(),
            !has_match(old(self).queue(), *filter) && !old(self).has_source() ==> r is Err
                && r->Err_0.spec_kind() == ErrorKind::SourceUnavailable && final(self).queue()
                == old(self).queue() && final(self).skipped() == old(self).skipped(),
            !has_match(old(self).queue(), *filter) && old(self).has_source() && old(self).skipped().len() == 0 ==> exists|got: Seq<InternalEvent>|
                no_match(got, *filter) && match r {
                    Ok(_) => final(self).queue() == old(self).queue() + got && final(self).skipped().len() == 0,
                    Err(_) => final(self).queue() + final(self).skipped() == old(self).queue()
                        + got,
                },
    {
        match self.try_read(filter) {
            Some(event) => {
                return Ok(event);
            },
            None => {},
        }
        let ghost q0 = self.queue();
        let ghost s0 = self.skipped();
        let ghost fresh = old(self).has_source() && s0.len() == 0;
        let ghost mut got: Seq<InternalEvent> = Seq::empty();
        proof {
            if fresh {
                assert(q0 + s0 =~= q0 + got);
                assert(no_match(q0, *filter));
            }
        }
        let mut waits: u64 = 0;
        while waits < MAX_READ_WAITS
            invariant
                self.has_source() == old(self).has_source(),
                !has_match(q0, *filter),
                q0 == old(self).queue(),
                s0 == old(self).skipped(),
                fresh == (old(self).has_source() && s0.len() == 0),
                waits == 0 ==> self.queue() == q0 && self.skipped() == s0,
                waits > 0 ==> old(self).has_source(),
                no_match(got, *filter),
                fresh ==> self.queue() + self.skipped() == q0 + got && no_match(
                    self.queue(),
                    *filter,
                ) && no_match(self.skipped(), *filter),
            decreases MAX_READ_WAITS - waits,
        {
            let ghost q1 = self.queue();
            let ghost s1 = self.skipped();
            proof {
                if fresh {
                    assert(!has_match(q1, *filter));
                }
            }
            let polled_result = self.poll(None, filter);
            let ghost q2 = self.queue();
            let ghost s2 = self.skipped();
            proof {
                if fresh {
                    assert(polled(q1, s1, q2, s2, polled_result, *filter));
                    assert(q1 + s1 == q0 + got);
                }
            }
            match polled_result {
                Err(e) => {
                    proof {
                        if fresh {
                            let g2 = choose|g2: Seq<InternalEvent>|
                                no_match(g2, *filter) && q2 == q1 && s2 == s1 + g2;
                            lemma_no_match_concat(got, g2, *filter);
                            assert(q1 + (s1 + g2) =~= (q1 + s1) + g2);
                            assert((q0 + got) + g2 =~= q0 + (got + g2));
                            assert(q2 + s2 == q0 + (got + g2));
                            got = got + g2;
                        }
                    }
                    return Err(e);
                },
                Ok(true) => {
                    assert(has_match(q2, *filter)) by {
                        if !has_match(q1, *filter) {
                            assert(filter.accepts(q2[0]));
                        }
                    }
                    proof {
                        if fresh {
                            let g2 = choose|g2: Seq<InternalEvent>|
                                no_match(g2, *filter) && q2 == seq![q2[0]] + q1 + s1 + g2;
                            lemma_no_match_concat(got, g2, *filter);
                            assert(q2.remove(0) =~= (q1 + s1) + g2);
                            assert((q0 + got) + g2 =~= q0 + (got + g2));
                            assert(is_first_match(q2, *filter, 0)) by {
                                assert(q2.take(0) =~= Seq::<InternalEvent>::empty());
                            }
                            got = got + g2;
                        }
                    }
                    let taken = self.try_read(filter);
                    proof {
                        if fresh {
                            let i = choose|i: int|
                                is_first_match(q2, *filter, i) && taken == Some(q2[i])
                                    && self.queue() == q2.remove(i);
                            lemma_first_match_unique(q2, *filter, i, 0);
                        }
                    }
                    match taken {
                        Some(event) => {
                            return Ok(event);
                        },
                        None => {},
                    }
                },
                Ok(false) => {
                    proof {
                        if fresh {
                            let g2 = choose|g2: Seq<InternalEvent>|
                                #[trigger] no_match(g2, *filter) && ((q2 == q1 + s1 + g2 && s2.len() == 0)
                                    || (q2 == q1 && s2 == s1 + g2));
                            lemma_no_match_concat(got, g2, *filter);
                            lemma_no_match_concat(q1, s1, *filter);
                            lemma_no_match_concat(q1 + s1, g2, *filter);
                            lemma_no_match_concat(s1, g2, *filter);
                            assert(q1 + (s1 + g2) =~= (q1 + s1) + g2);
                            assert((q1 + s1 + g2) + Seq::<InternalEvent>::empty() =~= (q1 + s1)
                                + g2);
                            assert((q0 + got) + g2 =~= q0 + (got + g2));
                            if s2.len() == 0 {
                                assert(s2 =~= Seq::<InternalEvent>::empty());
                            }
                            assert(q2 + s2 == q0 + (got + g2));
                            got = got + g2;
                        }
                    }
                },
            }
            waits = waits + 1;
        }
        Err(Error::new(ErrorKind::Interrupted, "Waiting for an event was interrupted"))
    }

    /// Moves the skip buffer, in order, to the back of the queue.
    fn restore_skipped(&mut self)
        ensures
            final(self).queue() == old(self).queue() + old(self).skipped(),
            final(self).skipped().len() == 0,
            final(self).source == old(self).source,
    {
        let ghost q0 = self.events@;
        let n = self.skipped_events.len();
        let mut j: usize = 0;
        while j < n
            invariant
                n == self.skipped_events.len(),
                j <= n,
                self.skipped_events == old(self).skipped_events,
                self.source == old(self).source,
                self.events@ == q0 + self.skipped_events@.take(j as int),
            decreases n - j,
        {
            let event = self.skipped_events[j];
            self.events.push_back(event);
            assert(self.skipped_events@.take(j + 1) =~= self.skipped_events@.take(j as int).push(
                event,
            ));
            j = j + 1;
        }
        assert(self.skipped_events@.take(n as int) =~= self.skipped_events@);
        self.skipped_events.clear();
    }
}

} // verus!
