//! The clock loop of the pipe audio device: what is done in each window, and in which order.
//!
//! Sockets, the call engine and the clock are outside. The loop says what to do with them next,
//! and is told what came of it.

use crate::pipe_audio::{
    drain_step, fill_step, is_possible_write, law_pause_ends_on_the_tick,
    law_playout_keeps_the_newest_80_ms, law_read_keeps_the_newest_80_ms,
    law_window_is_the_front_of_the_buffer, law_write_goes_on_while_bytes_are_taken, pause_until,
    pcm_bytes, tick_after, window_of, AudioFlags, DrainStep, FillStep, Pacer, PipeSession, PipeView,
    ReadOutcome, ReadOutcomeView, WriteOutcome, WINDOW_NS,
};
use vstd::prelude::*;

verus! {

/// What the loop waits for.
#[derive(Debug, Clone, Copy, PartialEq, Eq, Structural)]
pub enum Turn {
    /// The next window.
    Window,
    /// Whether a peer has come.
    Peer,
    /// The audio for the peer.
    Playout,
    /// The outcome of a write of the queued audio from that index on.
    Write(usize),
    /// The outcome of a read from the peer.
    Read,
    /// That the recorded window was handed over.
    Recording,
    /// The time.
    Time,
    /// Nothing more.
    Stopped,
}

/// What is to be done next.
#[derive(Debug)]
pub enum ClockAction {
    /// Look for a peer.
    Accept,
    /// Pull a window of playout from the call engine.
    Pull,
    /// Write the queued audio from that index on.
    Write(usize),
    /// Read from the peer.
    Read,
    /// Hand a recorded window to the call engine.
    Push(Vec<i16>),
    /// Tell the time.
    TellTime,
    /// Sleep for so many nanoseconds, if for any, and begin the next window.
    Pause(Option<u64>),
    /// Stop.
    Stop,
}

/// What came of what was to be done.
#[derive(Debug)]
pub enum ClockEvent {
    /// It is time for the next window.
    NextWindow,
    /// Whether a peer has come.
    Peer(bool),
    /// The audio for the peer.
    Playout(Vec<i16>),
    /// The outcome of the write.
    Write(WriteOutcome),
    /// The outcome of the read.
    Read(ReadOutcome),
    /// The recorded window was handed over.
    Pushed,
    /// The time, in nanoseconds on a monotonic clock.
    Time(u64),
}

pub enum ClockActionView {
    Accept,
    Pull,
    Write(usize),
    Read,
    Push(Seq<i16>),
    TellTime,
    Pause(Option<u64>),
    Stop,
}

pub enum ClockEventView {
    NextWindow,
    Peer(bool),
    Playout(Seq<i16>),
    Write(WriteOutcome),
    Read(ReadOutcomeView),
    Pushed,
    Time(u64),
}

impl View for ClockAction {
    type V = ClockActionView;

    open spec fn view(&self) -> ClockActionView {
        match *self {
            ClockAction::Accept => ClockActionView::Accept,
            ClockAction::Pull => ClockActionView::Pull,
            ClockAction::Write(from) => ClockActionView::Write(from),
            ClockAction::Read => ClockActionView::Read,
            ClockAction::Push(samples) => ClockActionView::Push(samples@),
            ClockAction::TellTime => ClockActionView::TellTime,
            ClockAction::Pause(pause) => ClockActionView::Pause(pause),
            ClockAction::Stop => ClockActionView::Stop,
        }
    }
}

impl View for ClockEvent {
    type V = ClockEventView;

    open spec fn view(&self) -> ClockEventView {
        match *self {
            ClockEvent::NextWindow => ClockEventView::NextWindow,
            ClockEvent::Peer(came) => ClockEventView::Peer(came),
            ClockEvent::Playout(samples) => ClockEventView::Playout(samples@),
            ClockEvent::Write(outcome) => ClockEventView::Write(outcome),
            ClockEvent::Read(outcome) => ClockEventView::Read(outcome@),
            ClockEvent::Pushed => ClockEventView::Pushed,
            ClockEvent::Time(now) => ClockEventView::Time(now),
        }
    }
}

/// The clock loop of a pipe audio device.
#[derive(Debug)]
pub struct ClockLoop {
    pub session: PipeSession,
    pub pacer: Pacer,
    pub turn: Turn,
}

pub struct ClockView {
    pub session: PipeView,
    pub next_tick: u64,
    pub turn: Turn,
}

impl View for ClockLoop {
    type V = ClockView;

    open spec fn view(&self) -> ClockView {
        ClockView { session: self.session@, next_tick: self.pacer.next_tick, turn: self.turn }
    }
}

impl ClockView {
    /// At most 80 ms of audio are buffered each way, and nothing is written or read without a peer.
    pub open spec fn wf(self) -> bool {
        &&& self.session.wf()
        &&& (self.turn is Write || self.turn is Read) ==> self.session.connected
        &&& self.turn is Peer ==> !self.session.connected
        &&& self.turn matches Turn::Write(from) ==> from < self.session.playout.len()
    }

    /// A loop that is to begin at the time `now`.
    pub open spec fn fresh(now: u64) -> Self {
        ClockView { session: PipeView::fresh(), next_tick: now, turn: Turn::Window }
    }

    /// An event that the loop waits for. A socket takes no more bytes than it is offered, and the
    /// clock does not reach its end.
    pub open spec fn awaits(self, event: ClockEventView, flags: AudioFlags) -> bool {
        match event {
            ClockEventView::NextWindow => self.turn is Window && (flags.terminate
                || self.next_tick + WINDOW_NS <= u64::MAX),
            ClockEventView::Peer(_) => self.turn is Peer,
            ClockEventView::Playout(_) => self.turn is Playout,
            ClockEventView::Write(outcome) => self.turn matches Turn::Write(from)
                && is_possible_write(self.session.playout.len(), from as nat, outcome),
            ClockEventView::Read(_) => self.turn is Read,
            ClockEventView::Pushed => self.turn is Recording,
            ClockEventView::Time(_) => self.turn is Time,
        }
    }

    /// The loop turns to `turn`, and has `action` done.
    pub open spec fn turned(self, turn: Turn, action: ClockActionView) -> (Self, ClockActionView) {
        (ClockView { turn, ..self }, action)
    }

    /// Playout comes next: a window is pulled while the device plays, whether or not there is a
    /// peer.
    pub open spec fn playout_next(self, flags: AudioFlags) -> (Self, ClockActionView) {
        if flags.playing {
            self.turned(Turn::Playout, ClockActionView::Pull)
        } else {
            self.write_next(flags)
        }
    }

    /// Writing comes next, where there is a peer and audio for it.
    pub open spec fn write_next(self, flags: AudioFlags) -> (Self, ClockActionView) {
        if self.session.connected && self.session.playout.len() > 0 {
            self.turned(Turn::Write(0), ClockActionView::Write(0))
        } else {
            self.read_next(flags)
        }
    }

    /// Reading comes next, where there is a peer.
    pub open spec fn read_next(self, flags: AudioFlags) -> (Self, ClockActionView) {
        if self.session.connected {
            self.turned(Turn::Read, ClockActionView::Read)
        } else {
            self.record_next(flags)
        }
    }

    /// Recording comes next: one window is handed over while the device records for the call.
    pub open spec fn record_next(self, flags: AudioFlags) -> (Self, ClockActionView) {
        if flags.recording && flags.send_to_webrtc {
            ClockView { session: self.session.after_record(), ..self }.turned(
                Turn::Recording,
                ClockActionView::Push(window_of(self.session.capture)),
            )
        } else {
            self.time_next()
        }
    }

    /// The window's work is done.
    pub open spec fn time_next(self) -> (Self, ClockActionView) {
        self.turned(Turn::Time, ClockActionView::TellTime)
    }

    /// The loop after an event, with the flags as they are then, and what is to be done next.
    pub open spec fn after(self, event: ClockEventView, flags: AudioFlags) -> (
        Self,
        ClockActionView,
    ) {
        match event {
            ClockEventView::NextWindow => if flags.terminate {
                self.turned(Turn::Stopped, ClockActionView::Stop)
            } else {
                let begun = ClockView { next_tick: (self.next_tick + WINDOW_NS) as u64, ..self };
                if self.session.connected {
                    begun.playout_next(flags)
                } else {
                    begun.turned(Turn::Peer, ClockActionView::Accept)
                }
            },
            ClockEventView::Peer(came) => if came {
                ClockView { session: self.session.with_peer(), ..self }.playout_next(flags)
            } else {
                self.playout_next(flags)
            },
            ClockEventView::Playout(samples) => ClockView {
                session: self.session.with_playout(samples),
                ..self
            }.write_next(flags),
            ClockEventView::Write(outcome) => {
                let from = self.turn->Write_0;
                let written = ClockView {
                    session: self.session.after_write(from as nat, outcome),
                    ..self
                };
                match drain_step(self.session.playout.len(), from as nat, outcome) {
                    DrainStep::More(next) => written.turned(
                        Turn::Write(next),
                        ClockActionView::Write(next),
                    ),
                    _ => written.read_next(flags),
                }
            },
            ClockEventView::Read(outcome) => {
                let read = ClockView { session: self.session.after_read(outcome), ..self };
                if fill_step(outcome) is More {
                    read.turned(Turn::Read, ClockActionView::Read)
                } else {
                    read.record_next(flags)
                }
            },
            ClockEventView::Pushed => self.time_next(),
            ClockEventView::Time(now) => ClockView {
                next_tick: tick_after(self.next_tick, now),
                ..self
            }.turned(Turn::Window, ClockActionView::Pause(pause_until(self.next_tick, now))),
        }
    }
}

impl ClockLoop {
    /// A loop that begins at the time `now`, without a peer.
    pub fn new(now: u64) -> (clock: Self)
        ensures
            clock@ == ClockView::fresh(now),
            clock@.wf(),
    {
        ClockLoop { session: PipeSession::new(), pacer: Pacer::new(now), turn: Turn::Window }
    }

    /// Takes what came of the last action, with the flags as they are now: what is to be done next.
    pub fn next(&mut self, event: ClockEvent, flags: &AudioFlags) -> (action: ClockAction)
        requires
            old(self)@.wf(),
            old(self)@.awaits(event@, *flags),
        ensures
            (final(self)@, action@) == old(self)@.after(event@, *flags),
            final(self)@.wf(),
    {
        match event {
            ClockEvent::NextWindow => {
                if flags.terminate {
                    self.turn = Turn::Stopped;
                    return ClockAction::Stop;
                }
                self.pacer.begin_window();
                if self.session.wants_peer() {
                    self.turn = Turn::Peer;
                    ClockAction::Accept
                } else {
                    self.next_playout(flags)
                }
            },
            ClockEvent::Peer(came) => {
                if came {
                    self.session.peer_connected();
                }
                self.next_playout(flags)
            },
            ClockEvent::Playout(samples) => {
                self.session.queue_playout(&samples);
                self.next_write(flags)
            },
            ClockEvent::Write(outcome) => {
                let from: usize = match self.turn {
                    Turn::Write(from) => from,
                    _ => 0,
                };
                match self.session.after_write(from, outcome) {
                    DrainStep::More(next) => {
                        self.turn = Turn::Write(next);
                        ClockAction::Write(next)
                    },
                    _ => self.next_read(flags),
                }
            },
            ClockEvent::Read(outcome) => {
                match self.session.after_read(outcome) {
                    FillStep::More => {
                        self.turn = Turn::Read;
                        ClockAction::Read
                    },
                    _ => self.next_record(flags),
                }
            },
            ClockEvent::Pushed => self.next_time(),
            ClockEvent::Time(now) => {
                let pause = self.pacer.end_window(now);
                self.turn = Turn::Window;
                ClockAction::Pause(pause)
            },
        }
    }

    fn next_playout(&mut self, flags: &AudioFlags) -> (action: ClockAction)
        requires
            old(self)@.session.wf(),
        ensures
            (final(self)@, action@) == old(self)@.playout_next(*flags),
            final(self)@.wf(),
    {
        if flags.playing {
            self.turn = Turn::Playout;
            ClockAction::Pull
        } else {
            self.next_write(flags)
        }
    }

    fn next_write(&mut self, flags: &AudioFlags) -> (action: ClockAction)
        requires
            old(self)@.session.wf(),
        ensures
            (final(self)@, action@) == old(self)@.write_next(*flags),
            final(self)@.wf(),
    {
        if self.session.wants_write() {
            self.turn = Turn::Write(0);
            ClockAction::Write(0)
        } else {
            self.next_read(flags)
        }
    }

    fn next_read(&mut self, flags: &AudioFlags) -> (action: ClockAction)
        requires
            old(self)@.session.wf(),
        ensures
            (final(self)@, action@) == old(self)@.read_next(*flags),
            final(self)@.wf(),
    {
        if self.session.wants_peer() {
            self.next_record(flags)
        } else {
            self.turn = Turn::Read;
            ClockAction::Read
        }
    }

    fn next_record(&mut self, flags: &AudioFlags) -> (action: ClockAction)
        requires
            old(self)@.session.wf(),
        ensures
            (final(self)@, action@) == old(self)@.record_next(*flags),
            final(self)@.wf(),
    {
        match self.session.record(flags) {
            Some(samples) => {
                self.turn = Turn::Recording;
                ClockAction::Push(samples)
            },
            None => self.next_time(),
        }
    }

    fn next_time(&mut self) -> (action: ClockAction)
        requires
            old(self)@.session.wf(),
        ensures
            (final(self)@, action@) == old(self)@.time_next(),
            final(self)@.wf(),
    {
        self.turn = Turn::Time;
        ClockAction::TellTime
    }
}

/// How far into a window a turn is.
pub open spec fn place(turn: Turn) -> int {
    match turn {
        Turn::Window => 0,
        Turn::Peer => 1,
        Turn::Playout => 2,
        Turn::Write(_) => 3,
        Turn::Read => 4,
        Turn::Recording => 5,
        Turn::Time => 6,
        Turn::Stopped => 7,
    }
}

/// Within a window the loop only goes forward: a peer is looked for, then playout pulled, then
/// written, then the peer's audio read, then a window handed over, then the time told. Only writes
/// follow writes, each from further on, and only reads follow reads.
pub proof fn law_window_goes_forward(clock: ClockView, event: ClockEventView, flags: AudioFlags)
    requires
        clock.wf(),
        clock.awaits(event, flags),
        !(event is Time),
    ensures
        ({
            let next = clock.after(event, flags).0.turn;
            ||| place(next) > place(clock.turn)
            ||| clock.turn is Read && next is Read
            ||| clock.turn matches Turn::Write(from) && next matches Turn::Write(further) && from
                < further
        }),
{
}

/// A loop with a record of what was done so far.
pub struct ClockTrace {
    pub clock: ClockView,
    /// How many windows were begun.
    pub windows: nat,
    /// How many windows of playout were pulled.
    pub pulled: nat,
    /// What was handed over.
    pub pushed: Seq<Seq<i16>>,
    /// How many windows of playout were pulled before the last window that was begun.
    pub pulled_before: nat,
    /// How many windows were handed over before the last window that was begun.
    pub pushed_before: nat,
}

/// A loop that began at the time `now`, after some events, each with the flags as they were then.
pub open spec fn clock_after(now: u64, events: Seq<(ClockEventView, AudioFlags)>) -> ClockTrace
    decreases events.len(),
{
    if events.len() == 0 {
        ClockTrace {
            clock: ClockView::fresh(now),
            windows: 0,
            pulled: 0,
            pushed: seq![],
            pulled_before: 0,
            pushed_before: 0,
        }
    } else {
        let before = clock_after(now, events.drop_last());
        let (event, flags) = events.last();
        let (clock, action) = before.clock.after(event, flags);
        let begins = event is NextWindow && !flags.terminate;
        ClockTrace {
            clock,
            windows: if begins {
                before.windows + 1
            } else {
                before.windows
            },
            pulled_before: if begins {
                before.pulled
            } else {
                before.pulled_before
            },
            pushed_before: if begins {
                before.pushed.len()
            } else {
                before.pushed_before
            },
            pulled: if action is Pull {
                before.pulled + 1
            } else {
                before.pulled
            },
            pushed: match action {
                ClockActionView::Push(samples) => before.pushed.push(samples),
                _ => before.pushed,
            },
        }
    }
}

/// Every event was one that the loop waited for.
pub open spec fn were_awaited(now: u64, events: Seq<(ClockEventView, AudioFlags)>) -> bool
    decreases events.len(),
{
    events.len() > 0 ==> {
        &&& were_awaited(now, events.drop_last())
        &&& clock_after(now, events.drop_last()).clock.awaits(events.last().0, events.last().1)
    }
}

/// Whatever happens, each window of 10 ms takes at most one window of playout from the call engine
/// and gives it at most one recorded window, of 480 samples, and so do all windows together; and at
/// most 80 ms of audio are buffered each way.
pub proof fn law_one_window_each_way(now: u64, events: Seq<(ClockEventView, AudioFlags)>)
    requires
        were_awaited(now, events),
    ensures
        ({
            let trace = clock_after(now, events);
            &&& trace.clock.wf()
            &&& trace.pulled_before <= trace.pulled <= trace.pulled_before + 1
            &&& trace.pushed_before <= trace.pushed.len() <= trace.pushed_before + 1
            &&& trace.pulled <= trace.windows
            &&& trace.pushed.len() <= trace.windows
            &&& forall|i: int|
                0 <= i < trace.pushed.len() ==> (#[trigger] trace.pushed[i]).len() == 480
        }),
{
    lemma_windows_counted(now, events);
}

/// Every window is served: where the device plays, records and hands over throughout and is never
/// told to stop, each window begun has one window of playout pulled and one recorded window handed
/// over by its end, with or without a peer. Within a window the pull is still due while a peer is
/// looked for, and the recorded window while anything but it is waited for before the time is told.
pub proof fn law_every_window_is_served(now: u64, events: Seq<(ClockEventView, AudioFlags)>)
    requires
        were_awaited(now, events),
        forall|i: int|
            #![trigger events[i]]
            0 <= i < events.len() ==> {
                &&& events[i].1.playing
                &&& events[i].1.recording
                &&& events[i].1.send_to_webrtc
                &&& !events[i].1.terminate
            },
    ensures
        ({
            let trace = clock_after(now, events);
            let at = place(trace.clock.turn);
            &&& trace.clock.turn is Window ==> trace.pulled == trace.windows && trace.pushed.len()
                == trace.windows
            &&& trace.pulled == trace.windows - (if at == 1 { 1int } else { 0int })
            &&& trace.pushed.len() == trace.windows - (if 1 <= at <= 4 { 1int } else { 0int })
            &&& !(trace.clock.turn is Stopped)
        }),
    decreases events.len(),
{
    if events.len() > 0 {
        let front = events.drop_last();
        assert forall|i: int| #![trigger front[i]] 0 <= i < front.len() implies {
            &&& front[i].1.playing
            &&& front[i].1.recording
            &&& front[i].1.send_to_webrtc
            &&& !front[i].1.terminate
        } by {
            assert(front[i] == events[i]);
        }
        law_every_window_is_served(now, front);
        lemma_windows_counted(now, front);
        assert(events[events.len() - 1].1.playing);
    }
}

proof fn lemma_windows_counted(now: u64, events: Seq<(ClockEventView, AudioFlags)>)
    requires
        were_awaited(now, events),
    ensures
        ({
            let trace = clock_after(now, events);
            let at = place(trace.clock.turn);
            &&& trace.clock.wf()
            &&& trace.pulled_before <= trace.pulled <= trace.pulled_before + 1
            &&& trace.pushed_before <= trace.pushed.len() <= trace.pushed_before + 1
            &&& at == 1 ==> trace.pulled == trace.pulled_before
            &&& 1 <= at <= 4 ==> trace.pushed.len() == trace.pushed_before
            &&& trace.pulled + (if at == 1 { 1int } else { 0int }) <= trace.windows
            &&& trace.pushed.len() + (if 1 <= at <= 4 { 1int } else { 0int }) <= trace.windows
            &&& forall|i: int|
                0 <= i < trace.pushed.len() ==> (#[trigger] trace.pushed[i]).len() == 480
        }),
    decreases events.len(),
{
    if events.len() > 0 {
        lemma_windows_counted(now, events.drop_last());
        let before = clock_after(now, events.drop_last());
        let (event, flags) = events.last();
        lemma_after_keeps_wf(before.clock, event, flags);
    }
}

proof fn lemma_after_keeps_wf(clock: ClockView, event: ClockEventView, flags: AudioFlags)
    requires
        clock.wf(),
        clock.awaits(event, flags),
    ensures
        clock.after(event, flags).0.wf(),
{
}


/// What the loop waits for is what it has had done: each action is answered by an event of its own.
pub proof fn law_each_action_is_waited_for(
    clock: ClockView,
    event: ClockEventView,
    flags: AudioFlags,
)
    requires
        clock.wf(),
        clock.awaits(event, flags),
    ensures
        ({
            let (next, action) = clock.after(event, flags);
            &&& action is Accept <==> next.turn is Peer
            &&& action is Pull <==> next.turn is Playout
            &&& action is Write <==> next.turn is Write
            &&& action matches ClockActionView::Write(from) ==> next.turn == Turn::Write(from)
            &&& action is Read <==> next.turn is Read
            &&& action is Push <==> next.turn is Recording
            &&& action is TellTime <==> next.turn is Time
            &&& action is Pause <==> next.turn is Window
            &&& action is Stop <==> next.turn is Stopped
        }),
{
}

/// The loop takes every outcome of what it has had done; of a write it takes any number of bytes
/// up to those offered.
pub proof fn law_every_outcome_is_taken(
    clock: ClockView,
    flags: AudioFlags,
    came: bool,
    samples: Seq<i16>,
    taken: usize,
    read: ReadOutcomeView,
    now: u64,
)
    requires
        clock.wf(),
    ensures
        clock.turn is Window && clock.next_tick + 10_000_000 <= u64::MAX ==> clock.awaits(
            ClockEventView::NextWindow,
            flags,
        ),
        clock.turn is Peer ==> clock.awaits(ClockEventView::Peer(came), flags),
        clock.turn is Playout ==> clock.awaits(ClockEventView::Playout(samples), flags),
        clock.turn matches Turn::Write(from) ==> {
            &&& clock.awaits(ClockEventView::Write(WriteOutcome::WouldBlock), flags)
            &&& clock.awaits(ClockEventView::Write(WriteOutcome::Failed), flags)
            &&& from + taken <= clock.session.playout.len() ==> clock.awaits(
                ClockEventView::Write(WriteOutcome::Wrote(taken)),
                flags,
            )
        },
        clock.turn is Read ==> clock.awaits(ClockEventView::Read(read), flags),
        clock.turn is Recording ==> clock.awaits(ClockEventView::Pushed, flags),
        clock.turn is Time ==> clock.awaits(ClockEventView::Time(now), flags),
{
}

/// What comes of recording where `held` is held from the peer: exactly while the device records and
/// hands over, whether or not it plays, one window is handed over, made of the front of `held`, low
/// bytes first, and silence after it, and its bytes leave the capture; otherwise nothing does, and
/// the time comes next.
pub open spec fn records(
    held: Seq<u8>,
    flags: AudioFlags,
    next: ClockView,
    action: ClockActionView,
) -> bool {
    if flags.recording && flags.send_to_webrtc {
        &&& action matches ClockActionView::Push(samples) && {
            &&& samples.len() == 480
            &&& forall|i: int|
                #![trigger samples[i]]
                0 <= i < 480 ==> if 2 * i + 1 < held.len() {
                    samples[i] == held[2 * i] + 256 * held[2 * i + 1] || samples[i] + 65536
                        == held[2 * i] + 256 * held[2 * i + 1]
                } else {
                    samples[i] == 0
                }
        }
        &&& held.len() >= 960 ==> next.session.capture == held.skip(960)
        &&& held.len() < 960 ==> next.session.capture == held.skip(held.len() - held.len() % 2)
    } else {
        &&& action is TellTime
        &&& next.session.capture == held
    }
}

proof fn lemma_record_next(clock: ClockView, flags: AudioFlags)
    ensures
        records(
            clock.session.capture,
            flags,
            clock.record_next(flags).0,
            clock.record_next(flags).1,
        ),
{
    law_window_is_the_front_of_the_buffer(clock.session.capture);
    assert(forall|i: int|
        #![trigger window_of(clock.session.capture)[i]]
        0 <= i < 480 ==> -32768 <= window_of(clock.session.capture)[i] <= 32767);
}

/// How a window begins: not at all once the device is to stop; otherwise its tick is 10 ms after
/// the last, a peer is looked for where there is none, and where there is one, a window of playout
/// is pulled while the device plays, else what is queued is written, else the peer is read from.
pub proof fn law_window_begins(clock: ClockView, flags: AudioFlags)
    requires
        clock.wf(),
        clock.awaits(ClockEventView::NextWindow, flags),
    ensures
        ({
            let (next, action) = clock.after(ClockEventView::NextWindow, flags);
            &&& next.session == clock.session
            &&& if flags.terminate {
                &&& action is Stop
                &&& next.next_tick == clock.next_tick
            } else {
                &&& next.next_tick == clock.next_tick + 10_000_000
                &&& if !clock.session.connected {
                    action is Accept
                } else if flags.playing {
                    action is Pull
                } else if clock.session.playout.len() > 0 {
                    action == ClockActionView::Write(0)
                } else {
                    action is Read
                }
            }
        }),
{
}

/// What a new peer, or none, leads to: a new peer finds both buffers empty; a window of playout is
/// pulled while the device plays, with or without a peer; else a peer is read from, and without one
/// recording comes next.
pub proof fn law_peer_is_taken(clock: ClockView, came: bool, flags: AudioFlags)
    requires
        clock.wf(),
        clock.awaits(ClockEventView::Peer(came), flags),
    ensures
        ({
            let (next, action) = clock.after(ClockEventView::Peer(came), flags);
            &&& next.next_tick == clock.next_tick
            &&& next.session.connected == came
            &&& came ==> next.session.playout.len() == 0 && next.session.capture.len() == 0
            &&& !came ==> next.session.playout == clock.session.playout
            &&& if flags.playing {
                &&& action is Pull
                &&& !came ==> next.session.capture == clock.session.capture
            } else if came {
                action is Read
            } else {
                records(clock.session.capture, flags, next, action)
            }
        }),
{
    lemma_record_next(clock, flags);
}

/// What pulled playout leads to: where there is a peer it is queued, the newest 80 ms of it, and
/// written where anything is queued, else the peer is read from; without a peer it is dropped, and
/// recording comes next.
pub proof fn law_playout_is_queued(clock: ClockView, samples: Seq<i16>, flags: AudioFlags)
    requires
        clock.wf(),
        clock.awaits(ClockEventView::Playout(samples), flags),
    ensures
        ({
            let (next, action) = clock.after(ClockEventView::Playout(samples), flags);
            let total = clock.session.playout + pcm_bytes(samples);
            let queued = next.session.playout;
            &&& next.next_tick == clock.next_tick
            &&& next.session.connected == clock.session.connected
            &&& if clock.session.connected {
                &&& next.session.capture == clock.session.capture
                &&& queued.len() <= total.len()
                &&& queued == total.skip(total.len() - queued.len())
                &&& total.len() <= 7680 ==> queued.len() == total.len()
                &&& total.len() > 7680 ==> 7679 <= queued.len() <= 7680
                &&& if queued.len() > 0 {
                    action == ClockActionView::Write(0)
                } else {
                    action is Read
                }
            } else {
                &&& queued == clock.session.playout
                &&& records(clock.session.capture, flags, next, action)
            }
        }),
{
    law_playout_keeps_the_newest_80_ms(clock.session, samples);
    lemma_record_next(clock, flags);
}

/// What a write leads to: it goes on from behind the bytes taken while the socket takes some and
/// not all; when it ends the bytes taken leave the queue, and the peer is read from; a failure
/// loses the peer, and recording comes next.
pub proof fn law_write_is_followed_up(
    clock: ClockView,
    taken: nat,
    outcome: WriteOutcome,
    flags: AudioFlags,
)
    requires
        clock.wf(),
        clock.awaits(ClockEventView::Write(outcome), flags),
        taken == match outcome {
            WriteOutcome::Wrote(n) => n as nat,
            _ => 0,
        },
    ensures
        ({
            let (next, action) = clock.after(ClockEventView::Write(outcome), flags);
            let from = clock.turn->Write_0;
            let queued = clock.session.playout;
            &&& next.next_tick == clock.next_tick
            &&& if taken > 0 && from + taken < queued.len() {
                &&& action matches ClockActionView::Write(more) && more == from + taken
                &&& next.session == clock.session
            } else {
                &&& next.session.playout == queued.skip(from + taken)
                &&& if outcome is Failed {
                    &&& !next.session.connected
                    &&& records(clock.session.capture, flags, next, action)
                } else {
                    &&& next.session.connected
                    &&& next.session.capture == clock.session.capture
                    &&& action is Read
                }
            }
        }),
{
    law_write_goes_on_while_bytes_are_taken(
        clock.session,
        clock.turn->Write_0 as nat,
        taken,
        outcome,
    );
    lemma_record_next(
        ClockView {
            session: clock.session.after_write(clock.turn->Write_0 as nat, outcome),
            ..clock
        },
        flags,
    );
}

/// What a read leads to: bytes join the capture, of which the newest 80 ms stay, and reading goes
/// on; when the socket has nothing, recording comes next, and so it does when the stream has ended
/// or the read failed, by which the peer is lost.
pub proof fn law_read_is_followed_up(clock: ClockView, outcome: ReadOutcomeView, flags: AudioFlags)
    requires
        clock.wf(),
        clock.awaits(ClockEventView::Read(outcome), flags),
    ensures
        ({
            let (next, action) = clock.after(ClockEventView::Read(outcome), flags);
            let held = clock.session.capture;
            &&& next.next_tick == clock.next_tick
            &&& next.session.playout == clock.session.playout
            &&& match outcome {
                ReadOutcomeView::Read(bytes) => if bytes.len() > 0 {
                    let total = held + bytes;
                    let kept = next.session.capture;
                    &&& action is Read
                    &&& next.session.connected
                    &&& kept.len() <= total.len()
                    &&& kept == total.skip(total.len() - kept.len())
                    &&& total.len() <= 7680 ==> kept.len() == total.len()
                    &&& total.len() > 7680 ==> 7679 <= kept.len() <= 7680
                    &&& (total.len() - kept.len()) % 2 == 0
                } else {
                    &&& !next.session.connected
                    &&& records(held, flags, next, action)
                },
                ReadOutcomeView::WouldBlock => {
                    &&& next.session.connected
                    &&& records(held, flags, next, action)
                },
                ReadOutcomeView::Failed => {
                    &&& !next.session.connected
                    &&& records(held, flags, next, action)
                },
            }
        }),
{
    law_read_keeps_the_newest_80_ms(clock.session, outcome);
    lemma_record_next(ClockView { session: clock.session.after_read(outcome), ..clock }, flags);
}

/// How a window ends: once the recorded window is handed over the time is told; a window that is
/// done before its tick is slept up to the tick, and one that is late is followed at once, the next
/// tick counted from then on. The session stays as it was.
pub proof fn law_window_ends(clock: ClockView, now: u64, flags: AudioFlags)
    ensures
        clock.awaits(ClockEventView::Pushed, flags) ==> {
            let (next, action) = clock.after(ClockEventView::Pushed, flags);
            &&& action is TellTime
            &&& next.session == clock.session
            &&& next.next_tick == clock.next_tick
        },
        clock.awaits(ClockEventView::Time(now), flags) ==> {
            let (next, action) = clock.after(ClockEventView::Time(now), flags);
            &&& next.session == clock.session
            &&& if now < clock.next_tick {
                &&& next.next_tick == clock.next_tick
                &&& action matches ClockActionView::Pause(Some(pause)) && now + pause
                    == clock.next_tick
            } else {
                &&& next.next_tick == now
                &&& action == ClockActionView::Pause(None)
            }
        },
{
    law_pause_ends_on_the_tick(clock.next_tick, now);
}

/// The events from `begin` on are those of one window.
pub open spec fn is_last_window(events: Seq<(ClockEventView, AudioFlags)>, begin: int) -> bool {
    &&& 0 <= begin < events.len()
    &&& events[begin].0 is NextWindow
    &&& forall|i: int|
        #![trigger events[i]]
        begin < i < events.len() ==> !(events[i].0 is NextWindow)
    &&& forall|i: int| #![trigger events[i]] begin <= i < events.len() ==> !events[i].1.terminate
}

/// In every window in which the device records and hands over throughout, exactly one recorded
/// window is handed over, whether or not it plays; in every window in which it does not,
/// throughout, none is.
pub proof fn law_recording_needs_no_playout(
    now: u64,
    events: Seq<(ClockEventView, AudioFlags)>,
    begin: int,
    hands_over: bool,
)
    requires
        were_awaited(now, events),
        is_last_window(events, begin),
        forall|i: int|
            #![trigger events[i]]
            begin <= i < events.len() ==> (events[i].1.recording && events[i].1.send_to_webrtc)
                == hands_over,
    ensures
        ({
            let before = clock_after(now, events.take(begin)).pushed;
            let trace = clock_after(now, events);
            let at = place(trace.clock.turn);
            &&& trace.clock.wf()
            &&& trace.clock.turn is Window ==> trace.pushed.len() == before.len() + (
            if hands_over { 1int } else { 0int })
            &&& trace.pushed.len() == before.len() + (if hands_over && (at == 0 || at >= 5) {
                1int
            } else {
                0int
            })
            &&& !(trace.clock.turn is Stopped)
        }),
    decreases events.len(),
{
    let front = events.drop_last();
    law_one_window_each_way(now, events);
    law_one_window_each_way(now, front);
    let last = events.len() - 1;
    if begin == last {
        assert(events.take(begin) =~= front);
        assert(events[last].0 is NextWindow);
    } else {
        assert(forall|i: int| 0 <= i < front.len() ==> front[i] == events[i]);
        assert(front.take(begin) =~= events.take(begin));
        law_recording_needs_no_playout(now, front, begin, hands_over);
        assert(!(events[last].0 is NextWindow));
    }
}

/// In every window in which the device plays throughout, exactly one window of playout is pulled,
/// whether or not it records; in every window in which it does not, throughout, none is.
pub proof fn law_playout_needs_no_recording(
    now: u64,
    events: Seq<(ClockEventView, AudioFlags)>,
    begin: int,
    plays: bool,
)
    requires
        were_awaited(now, events),
        is_last_window(events, begin),
        forall|i: int|
            #![trigger events[i]]
            begin <= i < events.len() ==> events[i].1.playing == plays,
    ensures
        ({
            let before = clock_after(now, events.take(begin)).pulled;
            let trace = clock_after(now, events);
            let at = place(trace.clock.turn);
            &&& trace.clock.turn is Window ==> trace.pulled == before + (if plays {
                1int
            } else {
                0int
            })
            &&& trace.pulled == before + (if plays && at != 1 { 1int } else { 0int })
            &&& !(trace.clock.turn is Stopped)
        }),
    decreases events.len(),
{
    let front = events.drop_last();
    law_one_window_each_way(now, front);
    let last = events.len() - 1;
    if begin == last {
        assert(events.take(begin) =~= front);
        assert(events[last].0 is NextWindow);
    } else {
        assert(forall|i: int| 0 <= i < front.len() ==> front[i] == events[i]);
        assert(front.take(begin) =~= events.take(begin));
        law_playout_needs_no_recording(now, front, begin, plays);
        assert(!(events[last].0 is NextWindow));
    }
}

/// A device that is never late keeps time: its ticks are 10 ms apart, from the start on.
pub proof fn law_ticks_are_10_ms_apart(now: u64, events: Seq<(ClockEventView, AudioFlags)>)
    requires
        were_awaited(now, events),
        forall|i: int|
            #![trigger events[i]]
            0 <= i < events.len() && events[i].0 is Time ==> events[i].0->Time_0 < clock_after(
                now,
                events.take(i),
            ).clock.next_tick,
    ensures
        clock_after(now, events).clock.next_tick == now + 10_000_000 * clock_after(
            now,
            events,
        ).windows,
    decreases events.len(),
{
    if events.len() > 0 {
        let front = events.drop_last();
        assert forall|i: int|
            #![trigger front[i]]
            0 <= i < front.len() && front[i].0 is Time implies front[i].0->Time_0 < clock_after(
            now,
            front.take(i),
        ).clock.next_tick by {
            assert(front[i] == events[i]);
            assert(front.take(i) =~= events.take(i));
        }
        law_ticks_are_10_ms_apart(now, front);
        law_one_window_each_way(now, front);
        let last = events.len() - 1;
        assert(events.take(last) =~= front);
        assert(events[last] == events.last());
    }
}

/// A loop shows what it holds, and events and actions what they carry.
pub proof fn law_clock_shows_what_it_holds(
    clock: ClockLoop,
    event: ClockEvent,
    action: ClockAction,
)
    ensures
        clock@.session == clock.session@,
        clock@.next_tick == clock.pacer.next_tick,
        clock@.turn == clock.turn,
        match event {
            ClockEvent::NextWindow => event@ is NextWindow,
            ClockEvent::Peer(came) => event@ == ClockEventView::Peer(came),
            ClockEvent::Playout(samples) => event@ == ClockEventView::Playout(samples@),
            ClockEvent::Write(outcome) => event@ == ClockEventView::Write(outcome),
            ClockEvent::Read(outcome) => event@ == ClockEventView::Read(outcome@),
            ClockEvent::Pushed => event@ is Pushed,
            ClockEvent::Time(now) => event@ == ClockEventView::Time(now),
        },
        match action {
            ClockAction::Accept => action@ is Accept,
            ClockAction::Pull => action@ is Pull,
            ClockAction::Write(from) => action@ == ClockActionView::Write(from),
            ClockAction::Read => action@ is Read,
            ClockAction::Push(samples) => action@ == ClockActionView::Push(samples@),
            ClockAction::TellTime => action@ is TellTime,
            ClockAction::Pause(pause) => action@ == ClockActionView::Pause(pause),
            ClockAction::Stop => action@ is Stop,
        },
{
}

} // verus!
