//! What a peer of the pipe audio device is sent, and what is handed over from it: nothing but the
//! audio of its own time.

use crate::audio_clock::{
    clock_after, law_one_window_each_way, were_awaited, ClockActionView, ClockEventView, ClockView,
    Turn,
};
use crate::pipe_audio::{
    drain_step, filled, pcm_bytes, samples_in_window, window_of, AudioFlags, DrainStep, PipeView,
    ReadOutcomeView, WriteOutcome, MAX_BUFFERED,
};
use vstd::prelude::*;

verus! {

/// What went to and fro since the last peer was accepted, or since the start where none was.
pub struct PeerRecord {
    /// The bytes of the playout that was pulled while the peer was there.
    pub offered: Seq<u8>,
    /// The bytes that the peer's socket took.
    pub taken: Seq<u8>,
    /// Where in `offered` each byte of `taken` stands.
    pub taken_from: Seq<int>,
    /// Whether more playout was ever queued than the buffer holds.
    pub playout_cut: bool,
    /// The bytes that were read from the peer.
    pub read: Seq<u8>,
    /// The windows that were handed over.
    pub windows: Seq<Seq<i16>>,
    /// Where in `read` the samples of each of `windows` stand: from the first of the two on, up to
    /// the second.
    pub windows_from: Seq<(int, int)>,
    /// Whether more was ever read than the buffer holds.
    pub capture_cut: bool,
}

/// The bytes that are held from the peer once `event` is taken in, before any are handed over.
pub open spec fn held_capture(clock: ClockView, event: ClockEventView) -> Seq<u8> {
    match event {
        ClockEventView::Peer(came) => if came {
            seq![]
        } else {
            clock.session.capture
        },
        ClockEventView::Read(outcome) => filled(
            clock.session.capture,
            MAX_BUFFERED as nat,
            outcome,
        ),
        _ => clock.session.capture,
    }
}

impl PeerRecord {
    pub open spec fn fresh() -> Self {
        PeerRecord {
            offered: seq![],
            taken: seq![],
            taken_from: seq![],
            playout_cut: false,
            read: seq![],
            windows: seq![],
            windows_from: seq![],
            capture_cut: false,
        }
    }

    /// The record once the loop `clock` has taken in `event`. Playout that is pulled without a peer
    /// is offered to nobody.
    pub open spec fn with_event(self, clock: ClockView, event: ClockEventView) -> Self {
        let queued = clock.session.playout;
        match event {
            ClockEventView::Peer(came) => if came {
                PeerRecord::fresh()
            } else {
                self
            },
            ClockEventView::Playout(samples) => if clock.session.connected {
                PeerRecord {
                    offered: self.offered + pcm_bytes(samples),
                    playout_cut: self.playout_cut || queued.len() + 2 * samples.len()
                        > MAX_BUFFERED,
                    ..self
                }
            } else {
                self
            },
            ClockEventView::Write(WriteOutcome::Wrote(n)) => {
                let from = clock.turn->Write_0 as int;
                let first = self.offered.len() - queued.len() + from;
                PeerRecord {
                    taken: self.taken + queued.subrange(from, from + n),
                    taken_from: self.taken_from + Seq::new(n as nat, |i: int| first + i),
                    ..self
                }
            },
            ClockEventView::Read(ReadOutcomeView::Read(bytes)) => PeerRecord {
                read: self.read + bytes,
                capture_cut: self.capture_cut || clock.session.capture.len() + bytes.len()
                    > MAX_BUFFERED,
                ..self
            },
            _ => self,
        }
    }

    /// The record once `action` is done, with `held` held from the peer before.
    pub open spec fn with_action(self, held: Seq<u8>, action: ClockActionView) -> Self {
        match action {
            ClockActionView::Push(samples) => {
                let start = self.read.len() - held.len();
                PeerRecord {
                    windows: self.windows.push(samples),
                    windows_from: self.windows_from.push(
                        (start, start + 2 * samples_in_window(held.len())),
                    ),
                    ..self
                }
            },
            _ => self,
        }
    }

    /// What the peer took is playout that was offered to it: each byte at most once, in order, low
    /// bytes where low bytes belong. Where the buffer was never too full, it is the front of what
    /// was offered.
    pub open spec fn sends_its_own(self) -> bool {
        &&& self.taken.len() == self.taken_from.len()
        &&& forall|i: int|
            #![trigger self.taken_from[i]]
            0 <= i < self.taken.len() ==> {
                &&& 0 <= self.taken_from[i] < self.offered.len()
                &&& self.taken[i] == self.offered[self.taken_from[i]]
                &&& self.taken_from[i] % 2 == i % 2
            }
        &&& forall|i: int, j: int|
            0 <= i < j < self.taken.len() ==> (#[trigger] self.taken_from[i]) < (
            #[trigger] self.taken_from[j])
        &&& !self.playout_cut ==> self.taken.len() <= self.offered.len() && self.taken
            == self.offered.take(self.taken.len() as int)
    }

    /// Each window handed over is made of bytes that were read from the peer, whole samples and
    /// after them silence; the windows follow each other in what was read, without a gap where the
    /// buffer was never too full.
    pub open spec fn hands_over_its_own(self) -> bool {
        &&& self.windows.len() == self.windows_from.len()
        &&& forall|i: int|
            #![trigger self.windows_from[i]]
            0 <= i < self.windows.len() ==> {
                let (start, end) = self.windows_from[i];
                &&& 0 <= start <= end <= self.read.len()
                &&& start % 2 == 0
                &&& end % 2 == 0
                &&& self.windows[i] == window_of(self.read.subrange(start, end))
            }
        &&& forall|i: int, j: int|
            0 <= i < j < self.windows.len() ==> (#[trigger] self.windows_from[i]).1 <= (
            #[trigger] self.windows_from[j]).0
        &&& !self.capture_cut && self.windows.len() > 0 ==> self.windows_from[0].0 == 0
        &&& !self.capture_cut ==> forall|i: int, j: int|
            0 <= i && i + 1 == j && j < self.windows.len() ==> (
            #[trigger] self.windows_from[i]).1 == (#[trigger] self.windows_from[j]).0
    }
}

/// What went to and fro since the last peer was accepted, in a loop that began at the time `now`
/// and took some events.
pub open spec fn peer_after(now: u64, events: Seq<(ClockEventView, AudioFlags)>) -> PeerRecord
    decreases events.len(),
{
    if events.len() == 0 {
        PeerRecord::fresh()
    } else {
        let clock = clock_after(now, events.drop_last()).clock;
        let (event, flags) = events.last();
        peer_after(now, events.drop_last()).with_event(clock, event).with_action(
            held_capture(clock, event),
            clock.after(event, flags).1,
        )
    }
}

/// How many of the queued bytes are written already.
spec fn written(turn: Turn) -> int {
    match turn {
        Turn::Write(from) => from as int,
        _ => 0,
    }
}

/// The queued bytes are the end of what was offered, and all that was taken comes before what is
/// still to be written.
spec fn playout_stands(record: PeerRecord, playout: Seq<u8>, written: int) -> bool {
    let next = record.offered.len() - playout.len() + written;
    &&& record.sends_its_own()
    &&& playout.len() <= record.offered.len()
    &&& playout == record.offered.skip(record.offered.len() - playout.len())
    &&& 0 <= written <= playout.len()
    &&& forall|i: int| 0 <= i < record.taken.len() ==> (#[trigger] record.taken_from[i]) < next
    &&& record.taken.len() <= next
    &&& record.taken.len() as int % 2 == next % 2
    &&& !record.playout_cut ==> record.taken.len() == next
}

/// The held bytes are the end of what was read, and all that was handed over comes before them.
spec fn capture_stands(record: PeerRecord, capture: Seq<u8>) -> bool {
    let next = record.read.len() - capture.len();
    &&& record.hands_over_its_own()
    &&& capture.len() <= record.read.len()
    &&& capture == record.read.skip(next)
    &&& next % 2 == 0
    &&& forall|i: int|
        0 <= i < record.windows.len() ==> (#[trigger] record.windows_from[i]).1 <= next
    &&& !record.capture_cut ==> next == if record.windows.len() == 0 {
        0
    } else {
        record.windows_from.last().1
    }
}

proof fn lemma_offered(record: PeerRecord, clock: ClockView, samples: Seq<i16>)
    requires
        clock.session.connected,
        playout_stands(record, clock.session.playout, 0),
    ensures
        playout_stands(
            record.with_event(clock, ClockEventView::Playout(samples)),
            clock.session.with_playout(samples).playout,
            0,
        ),
{
    let after = record.with_event(clock, ClockEventView::Playout(samples));
    let queued = clock.session.playout;
    let playout = clock.session.with_playout(samples).playout;
    let bytes = pcm_bytes(samples);
    assert(queued + bytes =~= after.offered.skip(record.offered.len() - queued.len()));
    assert(playout =~= after.offered.skip(after.offered.len() - playout.len()));
    assert forall|i: int| #![trigger after.taken_from[i]] 0 <= i < after.taken.len() implies {
        &&& 0 <= after.taken_from[i] < after.offered.len()
        &&& after.taken[i] == after.offered[after.taken_from[i]]
        &&& after.taken_from[i] % 2 == i % 2
    } by {
        assert(record.taken_from[i] < record.offered.len());
    }
    if !after.playout_cut {
        assert(after.offered.take(after.taken.len() as int) =~= record.offered.take(
            record.taken.len() as int,
        ));
    }
}

proof fn lemma_taken(record: PeerRecord, clock: ClockView, n: usize)
    requires
        clock.turn is Write,
        clock.turn->Write_0 + n <= clock.session.playout.len(),
        playout_stands(record, clock.session.playout, clock.turn->Write_0 as int),
    ensures
        playout_stands(
            record.with_event(clock, ClockEventView::Write(WriteOutcome::Wrote(n))),
            clock.session.playout,
            clock.turn->Write_0 + n,
        ),
{
    let after = record.with_event(clock, ClockEventView::Write(WriteOutcome::Wrote(n)));
    let queued = clock.session.playout;
    let from = clock.turn->Write_0 as int;
    let first = record.offered.len() - queued.len() + from;
    let old_len = record.taken.len() as int;
    assert forall|i: int| #![trigger after.taken_from[i]] 0 <= i < after.taken.len() implies {
        &&& 0 <= after.taken_from[i] < first + n
        &&& after.taken[i] == after.offered[after.taken_from[i]]
        &&& after.taken_from[i] % 2 == i % 2
    } by {
        if i < old_len {
            assert(after.taken_from[i] == record.taken_from[i]);
        } else {
            assert(after.taken_from[i] == first + (i - old_len));
            assert(after.taken[i] == queued[from + (i - old_len)]);
        }
    }
    assert forall|i: int, j: int| 0 <= i < j < after.taken.len() implies (
    #[trigger] after.taken_from[i]) < (#[trigger] after.taken_from[j]) by {
        if j < old_len {
            assert(record.taken_from[i] < record.taken_from[j]);
        } else if i < old_len {
            assert(record.taken_from[i] < first);
        }
    }
    if !after.playout_cut {
        assert forall|i: int| 0 <= i < after.taken.len() implies after.taken[i]
            == after.offered[i] by {
            if i < old_len {
                assert(record.taken[i] == record.offered.take(old_len)[i]);
            } else {
                assert(after.taken_from[i] == i);
            }
        }
        assert(after.taken =~= after.offered.take(after.taken.len() as int));
    }
}

/// What is written is out of the buffer.
proof fn lemma_drained(record: PeerRecord, playout: Seq<u8>, written: int)
    requires
        playout_stands(record, playout, written),
    ensures
        playout_stands(record, playout.skip(written), 0),
{
    let rest = playout.skip(written);
    assert(rest =~= record.offered.skip(record.offered.len() - rest.len()));
}

proof fn lemma_read(record: PeerRecord, clock: ClockView, bytes: Seq<u8>)
    requires
        capture_stands(record, clock.session.capture),
    ensures
        capture_stands(
            record.with_event(clock, ClockEventView::Read(ReadOutcomeView::Read(bytes))),
            filled(clock.session.capture, MAX_BUFFERED as nat, ReadOutcomeView::Read(bytes)),
        ),
{
    let after = record.with_event(clock, ClockEventView::Read(ReadOutcomeView::Read(bytes)));
    let held = clock.session.capture;
    let capture = filled(held, MAX_BUFFERED as nat, ReadOutcomeView::Read(bytes));
    assert(held + bytes =~= after.read.skip(record.read.len() - held.len()));
    assert(capture =~= after.read.skip(after.read.len() - capture.len()));
    assert forall|i: int| #![trigger after.windows_from[i]] 0 <= i < after.windows.len() implies {
        let (start, end) = after.windows_from[i];
        &&& 0 <= start <= end <= after.read.len()
        &&& start % 2 == 0
        &&& end % 2 == 0
        &&& after.windows[i] == window_of(after.read.subrange(start, end))
    } by {
        let (start, end) = record.windows_from[i];
        assert(end <= record.read.len());
        assert(after.read.subrange(start, end) =~= record.read.subrange(start, end));
    }
    if !after.capture_cut {
        assert(capture.len() == held.len() + bytes.len());
    }
}

/// A window depends on no byte after its samples.
proof fn lemma_window_is_of_its_samples(held: Seq<u8>)
    ensures
        window_of(held.take(2 * samples_in_window(held.len()) as int)) == window_of(held),
{
    let part = held.take(2 * samples_in_window(held.len()) as int);
    assert(samples_in_window(part.len()) == samples_in_window(held.len()));
    assert forall|i: int| 0 <= i < 480 implies window_of(part)[i] == window_of(held)[i] by {
        if i < samples_in_window(held.len()) {
            assert(part[2 * i] == held[2 * i]);
            assert(part[2 * i + 1] == held[2 * i + 1]);
        }
    }
    assert(window_of(part) =~= window_of(held));
}

proof fn lemma_handed_over(record: PeerRecord, held: Seq<u8>)
    requires
        capture_stands(record, held),
    ensures
        capture_stands(
            record.with_action(held, ClockActionView::Push(window_of(held))),
            held.skip(2 * samples_in_window(held.len()) as int),
        ),
{
    let after = record.with_action(held, ClockActionView::Push(window_of(held)));
    let count = 2 * samples_in_window(held.len()) as int;
    let rest = held.skip(count);
    let start = record.read.len() - held.len();
    assert(rest =~= after.read.skip(after.read.len() - rest.len()));
    assert(after.read.subrange(start, start + count) =~= held.take(count));
    lemma_window_is_of_its_samples(held);
    let last = record.windows.len() as int;
    assert forall|i: int| #![trigger after.windows_from[i]] 0 <= i < after.windows.len() implies {
        let (a, b) = after.windows_from[i];
        &&& 0 <= a <= b <= after.read.len()
        &&& a % 2 == 0
        &&& b % 2 == 0
        &&& after.windows[i] == window_of(after.read.subrange(a, b))
        &&& b <= start + count
    } by {
        if i < last {
            assert(after.windows_from[i] == record.windows_from[i]);
            assert(after.windows[i] == record.windows[i]);
        }
    }
    assert forall|i: int, j: int| 0 <= i < j < after.windows.len() implies (
    #[trigger] after.windows_from[i]).1 <= (#[trigger] after.windows_from[j]).0 by {
        assert(after.windows_from[i] == record.windows_from[i]);
        if j < last {
            assert(after.windows_from[j] == record.windows_from[j]);
        }
    }
    if !after.capture_cut {
        assert forall|i: int, j: int| 0 <= i && i + 1 == j && j < after.windows.len() implies (
        #[trigger] after.windows_from[i]).1 == (#[trigger] after.windows_from[j]).0 by {
            assert(after.windows_from[i] == record.windows_from[i]);
            if j < last {
                assert(after.windows_from[j] == record.windows_from[j]);
            }
        }
        if last > 0 {
            assert(after.windows_from[0] == record.windows_from[0]);
        }
    }
}

/// The session once an event is taken in, before a window is handed over.
spec fn session_with(clock: ClockView, event: ClockEventView) -> PipeView {
    match event {
        ClockEventView::Peer(came) => if came {
            clock.session.with_peer()
        } else {
            clock.session
        },
        ClockEventView::Playout(samples) => clock.session.with_playout(samples),
        ClockEventView::Write(outcome) => clock.session.after_write(
            clock.turn->Write_0 as nat,
            outcome,
        ),
        ClockEventView::Read(outcome) => clock.session.after_read(outcome),
        _ => clock.session,
    }
}

/// How many of the queued bytes are written once an event is taken in, and not yet removed.
spec fn written_with(clock: ClockView, event: ClockEventView) -> int {
    match event {
        ClockEventView::Write(outcome) => match drain_step(
            clock.session.playout.len(),
            clock.turn->Write_0 as nat,
            outcome,
        ) {
            DrainStep::More(next) => next as int,
            _ => 0,
        },
        _ => 0,
    }
}

proof fn lemma_after_is_session_with(clock: ClockView, event: ClockEventView, flags: AudioFlags)
    requires
        clock.wf(),
        clock.awaits(event, flags),
    ensures
        ({
            let (next, action) = clock.after(event, flags);
            let session = session_with(clock, event);
            &&& next.session.playout == session.playout
            &&& written(next.turn) == written_with(clock, event)
            &&& session.capture == held_capture(clock, event)
            &&& match action {
                ClockActionView::Push(samples) => samples == window_of(session.capture)
                    && next.session.capture == session.after_record().capture,
                _ => next.session.capture == session.capture,
            }
        }),
{
}

proof fn lemma_event_taken_in(record: PeerRecord, clock: ClockView, event: ClockEventView)
    requires
        clock.wf(),
        exists|flags: AudioFlags| clock.awaits(event, flags),
        playout_stands(record, clock.session.playout, written(clock.turn)),
        capture_stands(record, clock.session.capture),
    ensures
        ({
            let after = record.with_event(clock, event);
            let session = session_with(clock, event);
            &&& playout_stands(after, session.playout, written_with(clock, event))
            &&& capture_stands(after, session.capture)
        }),
{
    let after = record.with_event(clock, event);
    let session = session_with(clock, event);
    match event {
        ClockEventView::Peer(came) => {
            if came {
                assert(after.offered.take(0) =~= after.taken);
                assert(session.playout =~= after.offered.skip(0));
                assert(session.capture =~= after.read.skip(0));
            }
        },
        ClockEventView::Playout(samples) => {
            if clock.session.connected {
                lemma_offered(record, clock, samples);
            }
        },
        ClockEventView::Write(outcome) => {
            let from = clock.turn->Write_0 as int;
            match outcome {
                WriteOutcome::Wrote(n) => {
                    lemma_taken(record, clock, n);
                    lemma_drained(after, clock.session.playout, from + n);
                },
                _ => {
                    lemma_drained(after, clock.session.playout, from);
                },
            }
        },
        ClockEventView::Read(ReadOutcomeView::Read(bytes)) => {
            lemma_read(record, clock, bytes);
        },
        _ => {},
    }
}

proof fn lemma_peer_stands(now: u64, events: Seq<(ClockEventView, AudioFlags)>)
    requires
        were_awaited(now, events),
    ensures
        ({
            let trace = clock_after(now, events);
            let record = peer_after(now, events);
            &&& playout_stands(record, trace.clock.session.playout, written(trace.clock.turn))
            &&& capture_stands(record, trace.clock.session.capture)
        }),
    decreases events.len(),
{
    let trace = clock_after(now, events);
    let record = peer_after(now, events);
    if events.len() == 0 {
        assert(record.offered.take(0) =~= record.taken);
        assert(trace.clock.session.playout =~= record.offered.skip(0));
        assert(trace.clock.session.capture =~= record.read.skip(0));
    } else {
        let front = events.drop_last();
        lemma_peer_stands(now, front);
        law_one_window_each_way(now, front);
        let clock = clock_after(now, front).clock;
        let (event, flags) = events.last();
        let taken_in = peer_after(now, front).with_event(clock, event);
        lemma_after_is_session_with(clock, event, flags);
        lemma_event_taken_in(peer_after(now, front), clock, event);
        if clock.after(event, flags).1 is Push {
            lemma_handed_over(taken_in, session_with(clock, event).capture);
        }
    }
}

/// The windows of the record are the last that were handed over.
proof fn lemma_windows_are_the_last(now: u64, events: Seq<(ClockEventView, AudioFlags)>)
    ensures
        ({
            let pushed = clock_after(now, events).pushed;
            let windows = peer_after(now, events).windows;
            &&& windows.len() <= pushed.len()
            &&& windows == pushed.skip(pushed.len() - windows.len())
        }),
    decreases events.len(),
{
    let pushed = clock_after(now, events).pushed;
    let windows = peer_after(now, events).windows;
    if events.len() > 0 {
        lemma_windows_are_the_last(now, events.drop_last());
    }
    assert(windows =~= pushed.skip(pushed.len() - windows.len()));
}

proof fn lemma_taken_and_queued(record: PeerRecord, playout: Seq<u8>)
    requires
        playout_stands(record, playout, 0),
        !record.playout_cut,
    ensures
        record.taken + playout == record.offered,
{
    let count = record.taken.len() as int;
    assert(record.offered =~= record.offered.take(count) + record.offered.skip(count));
}

/// A peer is sent nothing but the playout of its own time: whatever happens, the bytes that its
/// socket took are bytes of windows pulled since it was accepted, each at most once, in order and
/// aligned to samples; and as long as the queue never overflowed, they are the front of the bytes
/// of those windows, and the bytes still queued are the rest.
pub proof fn law_peer_is_sent_its_own_playout(
    now: u64,
    events: Seq<(ClockEventView, AudioFlags)>,
)
    requires
        were_awaited(now, events),
    ensures
        ({
            let clock = clock_after(now, events).clock;
            let record = peer_after(now, events);
            &&& record.sends_its_own()
            &&& !record.playout_cut && !(clock.turn is Write) ==> record.taken
                + clock.session.playout == record.offered
        }),
{
    lemma_peer_stands(now, events);
    let clock = clock_after(now, events).clock;
    let record = peer_after(now, events);
    if !record.playout_cut && !(clock.turn is Write) {
        lemma_taken_and_queued(record, clock.session.playout);
    }
}

/// From a peer's acceptance on nothing of an earlier peer is handed over: whatever happens, the
/// windows handed over since then are made of what was read from this peer, in order, whole
/// samples and after them silence; and as long as the buffer never overflowed, without a gap.
pub proof fn law_only_the_present_peer_is_heard(
    now: u64,
    events: Seq<(ClockEventView, AudioFlags)>,
)
    requires
        were_awaited(now, events),
    ensures
        ({
            let trace = clock_after(now, events);
            let record = peer_after(now, events);
            &&& record.hands_over_its_own()
            &&& record.windows.len() <= trace.pushed.len()
            &&& record.windows == trace.pushed.skip(trace.pushed.len() - record.windows.len())
        }),
{
    lemma_peer_stands(now, events);
    lemma_windows_are_the_last(now, events);
}

/// What a peer is sent and what is heard of it is counted from its acceptance on: once it is
/// accepted, nothing was offered to it, taken by it, read from it or handed over yet.
pub proof fn law_a_new_peer_starts_afresh(
    now: u64,
    events: Seq<(ClockEventView, AudioFlags)>,
    flags: AudioFlags,
)
    ensures
        ({
            let record = peer_after(now, events.push((ClockEventView::Peer(true), flags)));
            &&& record.offered.len() == 0
            &&& record.taken.len() == 0
            &&& record.read.len() == 0
            &&& record.windows.len() == 0
        }),
{
    let all = events.push((ClockEventView::Peer(true), flags));
    assert(all.drop_last() =~= events);
}

} // verus!
