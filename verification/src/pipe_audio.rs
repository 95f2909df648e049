//! The pipe audio backend: raw PCM exchanged with an external process over a stream socket.
//!
//! Both directions carry 48 kHz, mono, signed 16-bit little-endian PCM in 10 ms windows. Audio for
//! the peer is queued and written as the socket takes it; audio from the peer is buffered and
//! handed over window by window, padded with silence.

use vstd::prelude::*;

verus! {

/// PCM sample rate exchanged over the pipe.
pub const SAMPLE_FREQUENCY: u32 = 48_000;

/// Number of channels exchanged over the pipe.
pub const NUM_CHANNELS: u32 = 1;

/// Length of each PCM window exchanged, in milliseconds.
pub const WINDOW_MS: u64 = 10;

/// Length of each PCM window exchanged, in nanoseconds.
pub const WINDOW_NS: u64 = 10_000_000;

/// Samples per 10 ms window.
pub const WEBRTC_WINDOW: usize = 480;

/// Bytes per PCM sample (signed 16-bit).
pub const BYTES_PER_SAMPLE: usize = 2;

/// Most bytes that are buffered each way: eight windows, or 80 ms.
pub const MAX_BUFFERED: usize = 7680;

/// Reported playout delay, in milliseconds: one window, as the pipe has no hardware buffer.
pub const PIPE_PLAYOUT_DELAY_MS: u16 = 10;

/// Device name reported through enumeration.
pub const DEVICE_NAME: &'static str = "Signal Call Tunnel Pipe";

/// The sample with the low byte `lo` and the high byte `hi`, in two's complement.
pub open spec fn sample_of(lo: u8, hi: u8) -> int {
    let unsigned = lo + 256 * hi;
    if unsigned < 0x8000 {
        unsigned
    } else {
        unsigned - 0x1_0000
    }
}

/// The low byte of a sample.
pub open spec fn low_byte(sample: i16) -> u8 {
    ((sample as int) % 256) as u8
}

/// The high byte of a sample.
pub open spec fn high_byte(sample: i16) -> u8 {
    ((sample as int) / 256 % 256) as u8
}

/// The bytes of some samples, low byte first.
pub open spec fn pcm_bytes(samples: Seq<i16>) -> Seq<u8> {
    Seq::new(
        2 * samples.len(),
        |i: int|
            if i % 2 == 0 {
                low_byte(samples[i / 2])
            } else {
                high_byte(samples[i / 2])
            },
    )
}

/// How many whole samples of a buffer go into one window.
pub open spec fn samples_in_window(buffered: nat) -> nat {
    if buffered / 2 < 480 {
        buffered / 2
    } else {
        480
    }
}

/// The window at the front of a buffer, with silence where there are no samples.
pub open spec fn window_of(buffer: Seq<u8>) -> Seq<i16> {
    Seq::new(
        480,
        |i: int|
            if i < samples_in_window(buffer.len()) {
                sample_of(buffer[2 * i], buffer[2 * i + 1]) as i16
            } else {
                0
            },
    )
}

/// What is left of a buffer once a window was taken.
pub open spec fn after_window(buffer: Seq<u8>) -> Seq<u8> {
    buffer.skip(2 * samples_in_window(buffer.len()) as int)
}

/// How many bytes go from the front of a buffer of `len` bytes so that it holds at most `max`:
/// whole samples, as far as the buffer holds them.
pub open spec fn bytes_over(len: nat, max: nat) -> nat {
    if len <= max {
        0
    } else {
        let over = (len - max) as nat;
        if over % 2 == 1 && over < len {
            over + 1
        } else {
            over
        }
    }
}

/// The end of a buffer that is kept where it may hold at most `max` bytes.
pub open spec fn capped(buffer: Seq<u8>, max: nat) -> Seq<u8> {
    buffer.skip(bytes_over(buffer.len(), max) as int)
}

/// Removes `count` bytes from the front.
fn drop_front(buf: &mut Vec<u8>, count: usize)
    requires
        count <= old(buf)@.len(),
    ensures
        final(buf)@ == old(buf)@.skip(count as int),
{
    let rest = buf.split_off(count);
    assert(rest@ =~= old(buf)@.skip(count as int));
    *buf = rest;
}

/// Drop whole samples from the front of `buf` so it never exceeds `max`.
pub fn cap_buffer(buf: &mut Vec<u8>, max: usize)
    ensures
        final(buf)@ == capped(old(buf)@, max as nat),
        final(buf)@.len() <= max,
{
    if buf.len() > max {
        let mut overflow: usize = buf.len() - max;
        if overflow % BYTES_PER_SAMPLE == 1 && overflow < buf.len() {
            overflow += 1;
        }
        drop_front(buf, overflow);
    } else {
        assert(old(buf)@.skip(0) =~= old(buf)@);
    }
}

fn sample_from_bytes(lo: u8, hi: u8) -> (sample: i16)
    ensures
        sample == sample_of(lo, hi),
{
    let unsigned: i32 = lo as i32 + 256 * (hi as i32);
    if unsigned < 0x8000 {
        unsigned as i16
    } else {
        (unsigned - 0x1_0000) as i16
    }
}

/// Remove and return one window of samples from `buf`, padding the tail with silence when fewer
/// than a full window of samples is buffered.
pub fn take_window(buf: &mut Vec<u8>) -> (samples: Vec<i16>)
    ensures
        samples@ == window_of(old(buf)@),
        final(buf)@ == after_window(old(buf)@),
{
    let mut available: usize = buf.len() / BYTES_PER_SAMPLE;
    if available > WEBRTC_WINDOW {
        available = WEBRTC_WINDOW;
    }
    let mut samples: Vec<i16> = Vec::new();
    while samples.len() < WEBRTC_WINDOW
        invariant
            buf@ == old(buf)@,
            available == samples_in_window(buf@.len()),
            samples.len() <= WEBRTC_WINDOW,
            forall|j: int| 0 <= j < samples@.len() ==> samples@[j] == window_of(buf@)[j],
        decreases WEBRTC_WINDOW - samples.len(),
    {
        let i: usize = samples.len();
        if i < available {
            samples.push(
                sample_from_bytes(buf[i * BYTES_PER_SAMPLE], buf[i * BYTES_PER_SAMPLE + 1]),
            );
        } else {
            samples.push(0);
        }
    }
    assert(samples@ =~= window_of(buf@));
    drop_front(buf, available * BYTES_PER_SAMPLE);
    samples
}

/// Appends the bytes of some samples, low byte first.
fn append_pcm(buf: &mut Vec<u8>, samples: &Vec<i16>)
    ensures
        final(buf)@ == old(buf)@ + pcm_bytes(samples@),
{
    let ghost start = buf@;
    let mut i: usize = 0;
    assert(pcm_bytes(samples@.take(0)) =~= seq![]);
    while i < samples.len()
        invariant
            i <= samples.len(),
            buf@ == start + pcm_bytes(samples@.take(i as int)),
        decreases samples.len() - i,
    {
        let sample: i32 = samples[i] as i32;
        let unsigned: i32 = if sample < 0 {
            sample + 0x1_0000
        } else {
            sample
        };
        buf.push((unsigned % 256) as u8);
        buf.push((unsigned / 256) as u8);
        proof {
            let s = samples@[i as int];
            assert(unsigned % 256 == low_byte(s));
            assert(unsigned / 256 == high_byte(s));
            assert(buf@ =~= start + pcm_bytes(samples@.take(i + 1)));
        }
        i += 1;
    }
    assert(samples@.take(samples@.len() as int) =~= samples@);
}

/// What a write to the peer's socket came to.
#[derive(Debug, Clone, Copy, PartialEq, Eq, Structural)]
pub enum WriteOutcome {
    /// So many bytes were taken.
    Wrote(usize),
    /// The socket takes no bytes now.
    WouldBlock,
    /// The write failed.
    Failed,
}

/// What comes after a write.
#[derive(Debug, Clone, Copy, PartialEq, Eq, Structural)]
pub enum DrainStep {
    /// Write the bytes from that index on.
    More(usize),
    /// Nothing more is to be written now; what was written is out of the buffer.
    Done,
    /// The peer is lost; what was written is out of the buffer.
    Failed,
}

/// How many bytes of a buffer are written, once a write from index `written` on came to `outcome`.
pub open spec fn written_after(written: nat, outcome: WriteOutcome) -> nat {
    match outcome {
        WriteOutcome::Wrote(n) => written + n as nat,
        _ => written,
    }
}

/// What comes after a write from index `written` on.
pub open spec fn drain_step(len: nat, written: nat, outcome: WriteOutcome) -> DrainStep {
    match outcome {
        WriteOutcome::Wrote(n) => if n > 0 && written + n < len {
            DrainStep::More((written + n) as usize)
        } else {
            DrainStep::Done
        },
        WriteOutcome::WouldBlock => DrainStep::Done,
        WriteOutcome::Failed => DrainStep::Failed,
    }
}

/// The buffer after a write from index `written` on: as it was while more is to be written, and
/// without the bytes written once that ends.
pub open spec fn drained(buffer: Seq<u8>, written: nat, outcome: WriteOutcome) -> Seq<u8> {
    if drain_step(buffer.len(), written, outcome) is More {
        buffer
    } else {
        buffer.skip(written_after(written, outcome) as int)
    }
}

/// A socket takes no more bytes than it was offered.
pub open spec fn is_possible_write(len: nat, written: nat, outcome: WriteOutcome) -> bool {
    written_after(written, outcome) <= len
}

/// Write as much of `buf` as the non-blocking socket accepts, preserving sample alignment by only
/// removing fully written bytes: takes the outcome of the write that began at index `written`.
pub fn drain_playout(buf: &mut Vec<u8>, written: usize, outcome: WriteOutcome) -> (step: DrainStep)
    requires
        is_possible_write(old(buf)@.len(), written as nat, outcome),
    ensures
        step == drain_step(old(buf)@.len(), written as nat, outcome),
        final(buf)@ == drained(old(buf)@, written as nat, outcome),
{
    let len: usize = buf.len();
    match outcome {
        WriteOutcome::Wrote(n) => {
            if n > 0 && written + n < len {
                DrainStep::More(written + n)
            } else {
                drop_front(buf, written + n);
                DrainStep::Done
            }
        },
        WriteOutcome::WouldBlock => {
            drop_front(buf, written);
            DrainStep::Done
        },
        WriteOutcome::Failed => {
            drop_front(buf, written);
            DrainStep::Failed
        },
    }
}

/// What a read from the peer's socket came to.
#[derive(Debug)]
pub enum ReadOutcome {
    /// The bytes that were read; none where the peer has closed the connection.
    Read(Vec<u8>),
    /// There are no bytes now.
    WouldBlock,
    /// The read failed.
    Failed,
}

pub enum ReadOutcomeView {
    Read(Seq<u8>),
    WouldBlock,
    Failed,
}

impl View for ReadOutcome {
    type V = ReadOutcomeView;

    open spec fn view(&self) -> ReadOutcomeView {
        match *self {
            ReadOutcome::Read(bytes) => ReadOutcomeView::Read(bytes@),
            ReadOutcome::WouldBlock => ReadOutcomeView::WouldBlock,
            ReadOutcome::Failed => ReadOutcomeView::Failed,
        }
    }
}

/// What comes after a read.
#[derive(Debug, Clone, Copy, PartialEq, Eq, Structural)]
pub enum FillStep {
    /// Read on.
    More,
    /// All that was there is read.
    Done,
    /// The peer has closed the connection.
    PeerClosed,
    /// The peer is lost.
    Failed,
}

/// What comes after a read.
pub open spec fn fill_step(outcome: ReadOutcomeView) -> FillStep {
    match outcome {
        ReadOutcomeView::Read(bytes) => if bytes.len() == 0 {
            FillStep::PeerClosed
        } else {
            FillStep::More
        },
        ReadOutcomeView::WouldBlock => FillStep::Done,
        ReadOutcomeView::Failed => FillStep::Failed,
    }
}

/// The buffer after a read: with the bytes read at its end, and its front dropped so that it holds
/// at most `max` bytes.
pub open spec fn filled(buffer: Seq<u8>, max: nat, outcome: ReadOutcomeView) -> Seq<u8> {
    match outcome {
        ReadOutcomeView::Read(bytes) => if bytes.len() == 0 {
            buffer
        } else {
            capped(buffer + bytes, max)
        },
        _ => buffer,
    }
}

/// Drain all currently available bytes from the non-blocking socket into `buf`: takes the outcome
/// of one read.
pub fn fill_capture(buf: &mut Vec<u8>, max: usize, outcome: ReadOutcome) -> (step: FillStep)
    ensures
        step == fill_step(outcome@),
        final(buf)@ == filled(old(buf)@, max as nat, outcome@),
{
    match outcome {
        ReadOutcome::Read(bytes) => {
            if bytes.len() == 0 {
                FillStep::PeerClosed
            } else {
                buf.extend_from_slice(bytes.as_slice());
                assert(buf@ =~= old(buf)@ + bytes@);
                cap_buffer(buf, max);
                FillStep::More
            }
        },
        ReadOutcome::WouldBlock => FillStep::Done,
        ReadOutcome::Failed => FillStep::Failed,
    }
}

/// One side of the pipe: whether a peer is connected, the audio queued for it and the audio
/// buffered from it.
#[derive(Debug)]
pub struct PipeSession {
    pub connected: bool,
    pub playout: Vec<u8>,
    pub capture: Vec<u8>,
}

pub struct PipeView {
    pub connected: bool,
    pub playout: Seq<u8>,
    pub capture: Seq<u8>,
}

impl View for PipeSession {
    type V = PipeView;

    open spec fn view(&self) -> PipeView {
        PipeView {
            connected: self.connected,
            playout: self.playout@,
            capture: self.capture@,
        }
    }
}

impl PipeView {
    /// At most 80 ms of audio are buffered each way.
    pub open spec fn wf(self) -> bool {
        &&& self.playout.len() <= MAX_BUFFERED
        &&& self.capture.len() <= MAX_BUFFERED
    }

    pub open spec fn fresh() -> Self {
        PipeView { connected: false, playout: seq![], capture: seq![] }
    }

    /// A new peer starts with empty buffers.
    pub open spec fn with_peer(self) -> Self {
        PipeView { connected: true, playout: seq![], capture: seq![] }
    }

    /// Audio for the peer is queued where there is one, and dropped otherwise.
    pub open spec fn with_playout(self, samples: Seq<i16>) -> Self {
        if self.connected {
            PipeView {
                playout: capped(self.playout + pcm_bytes(samples), MAX_BUFFERED as nat),
                ..self
            }
        } else {
            self
        }
    }

    /// After a write from index `written` on; a failed write loses the peer.
    pub open spec fn after_write(self, written: nat, outcome: WriteOutcome) -> Self {
        PipeView {
            connected: self.connected && !(outcome is Failed),
            playout: drained(self.playout, written, outcome),
            ..self
        }
    }

    /// After a read; a failed read, or the end of the stream, loses the peer.
    pub open spec fn after_read(self, outcome: ReadOutcomeView) -> Self {
        PipeView {
            connected: self.connected && (fill_step(outcome) is More || fill_step(outcome) is Done),
            capture: filled(self.capture, MAX_BUFFERED as nat, outcome),
            ..self
        }
    }

    /// After a window was handed over.
    pub open spec fn after_record(self) -> Self {
        PipeView { capture: after_window(self.capture), ..self }
    }
}

impl PipeSession {
    /// A session that no peer has joined yet.
    pub fn new() -> (session: Self)
        ensures
            session@ == PipeView::fresh(),
            session@.wf(),
    {
        let session = PipeSession { connected: false, playout: Vec::new(), capture: Vec::new() };
        assert(session@.playout =~= seq![] && session@.capture =~= seq![]);
        session
    }

    /// Whether to look for a peer.
    pub fn wants_peer(&self) -> (wants: bool)
        ensures
            wants == !self@.connected,
    {
        !self.connected
    }

    /// A peer has connected.
    pub fn peer_connected(&mut self)
        requires
            !old(self)@.connected,
        ensures
            final(self)@ == old(self)@.with_peer(),
            final(self)@.wf(),
    {
        self.playout.clear();
        self.capture.clear();
        self.connected = true;
        assert(self@.playout =~= seq![] && self@.capture =~= seq![]);
    }

    /// Queues audio for the peer.
    pub fn queue_playout(&mut self, samples: &Vec<i16>)
        requires
            old(self)@.wf(),
        ensures
            final(self)@ == old(self)@.with_playout(samples@),
            final(self)@.wf(),
    {
        if self.connected {
            append_pcm(&mut self.playout, samples);
            cap_buffer(&mut self.playout, MAX_BUFFERED);
        }
    }

    /// Whether there is a peer and audio for it.
    pub fn wants_write(&self) -> (wants: bool)
        ensures
            wants == (self@.connected && self@.playout.len() > 0),
    {
        self.connected && self.playout.len() > 0
    }

    /// Takes the outcome of a write of the queued audio from index `written` on.
    pub fn after_write(&mut self, written: usize, outcome: WriteOutcome) -> (step: DrainStep)
        requires
            old(self)@.wf(),
            old(self)@.connected,
            is_possible_write(old(self)@.playout.len(), written as nat, outcome),
        ensures
            step == drain_step(old(self)@.playout.len(), written as nat, outcome),
            final(self)@ == old(self)@.after_write(written as nat, outcome),
            final(self)@.wf(),
    {
        let step = drain_playout(&mut self.playout, written, outcome);
        if step == DrainStep::Failed {
            self.connected = false;
        }
        step
    }

    /// Takes the outcome of a read from the peer.
    pub fn after_read(&mut self, outcome: ReadOutcome) -> (step: FillStep)
        requires
            old(self)@.wf(),
            old(self)@.connected,
        ensures
            step == fill_step(outcome@),
            final(self)@ == old(self)@.after_read(outcome@),
            final(self)@.wf(),
    {
        let ghost before = self.capture@;
        let step = fill_capture(&mut self.capture, MAX_BUFFERED, outcome);
        proof {
            law_capped_keeps_the_newest_whole_samples(
                before + outcome@->Read_0,
                MAX_BUFFERED as nat,
            );
        }
        if step == FillStep::PeerClosed || step == FillStep::Failed {
            self.connected = false;
        }
        step
    }

    /// The window to hand over, if audio is recorded and handed over at all.
    pub fn record(&mut self, flags: &AudioFlags) -> (window: Option<Vec<i16>>)
        requires
            old(self)@.wf(),
        ensures
            match window {
                Some(samples) => flags.recording && flags.send_to_webrtc && samples@ == window_of(
                    old(self)@.capture,
                ) && final(self)@ == old(self)@.after_record(),
                None => !(flags.recording && flags.send_to_webrtc) && final(self)@ == old(self)@,
            },
            final(self)@.wf(),
    {
        if flags.recording && flags.send_to_webrtc {
            Some(take_window(&mut self.capture))
        } else {
            None
        }
    }
}

/// What the call engine tells the audio device to do.
#[derive(Debug, Clone, Copy, PartialEq, Eq, Structural)]
pub enum AudioControlEvent {
    StartPlayout,
    StopPlayout,
    StartRecording { send_to_webrtc: bool },
    StopRecording,
    Terminate,
    /// Any other event.
    Other,
}

/// What the audio device is to do.
#[derive(Debug, Clone, Copy, PartialEq, Eq, Structural)]
pub struct AudioFlags {
    pub playing: bool,
    pub recording: bool,
    pub send_to_webrtc: bool,
    pub terminate: bool,
}

impl AudioFlags {
    pub open spec fn fresh() -> Self {
        AudioFlags { playing: false, recording: false, send_to_webrtc: true, terminate: false }
    }

    /// The flags after an event, `None` being the end of the events. Nothing changes them once the
    /// device is to stop.
    pub open spec fn after(self, event: Option<AudioControlEvent>) -> Self {
        if self.terminate {
            self
        } else {
            match event {
                Some(AudioControlEvent::StartPlayout) => AudioFlags { playing: true, ..self },
                Some(AudioControlEvent::StopPlayout) => AudioFlags { playing: false, ..self },
                Some(AudioControlEvent::StartRecording { send_to_webrtc }) => AudioFlags {
                    recording: true,
                    send_to_webrtc,
                    ..self
                },
                Some(AudioControlEvent::StopRecording) => AudioFlags { recording: false, ..self },
                Some(AudioControlEvent::Other) => self,
                Some(AudioControlEvent::Terminate) => AudioFlags { terminate: true, ..self },
                None => AudioFlags { terminate: true, ..self },
            }
        }
    }

    /// The flags of a device that was told nothing yet.
    pub fn new() -> (flags: Self)
        ensures
            flags == AudioFlags::fresh(),
    {
        AudioFlags { playing: false, recording: false, send_to_webrtc: true, terminate: false }
    }

    /// Takes an event, or `None` where no more come.
    pub fn apply(&mut self, event: Option<AudioControlEvent>)
        ensures
            *final(self) == old(self).after(event),
    {
        if self.terminate {
            return;
        }
        match event {
            Some(event) => match event {
                AudioControlEvent::StartPlayout => {
                    self.playing = true;
                },
                AudioControlEvent::StopPlayout => {
                    self.playing = false;
                },
                AudioControlEvent::StartRecording { send_to_webrtc } => {
                    self.send_to_webrtc = send_to_webrtc;
                    self.recording = true;
                },
                AudioControlEvent::StopRecording => {
                    self.recording = false;
                },
                AudioControlEvent::Terminate => {
                    self.terminate = true;
                },
                AudioControlEvent::Other => {},
            },
            None => {
                self.terminate = true;
            },
        }
    }
}

/// The time by which the window is done that was to be done at `next_tick`, once its work is done
/// at `now`: a device that fell behind starts anew from `now`, and does not catch up.
pub open spec fn tick_after(next_tick: u64, now: u64) -> u64 {
    if next_tick > now {
        next_tick
    } else {
        now
    }
}

/// How long to sleep where a window's work is done at `now`; not at all for a device that fell
/// behind.
pub open spec fn pause_until(next_tick: u64, now: u64) -> Option<u64> {
    if next_tick > now {
        Some((next_tick - now) as u64)
    } else {
        None
    }
}

/// Paces the exchange of windows. Times are nanoseconds on a monotonic clock.
#[derive(Debug, Clone, Copy, PartialEq, Eq, Structural)]
pub struct Pacer {
    pub next_tick: u64,
}

impl Pacer {
    /// Starts pacing at the time `now`.
    pub fn new(now: u64) -> (pacer: Self)
        ensures
            pacer.next_tick == now,
    {
        Pacer { next_tick: now }
    }

    /// A window begins.
    pub fn begin_window(&mut self)
        requires
            old(self).next_tick + WINDOW_NS <= u64::MAX,
        ensures
            final(self).next_tick == old(self).next_tick + WINDOW_NS,
    {
        self.next_tick = self.next_tick + WINDOW_NS;
    }

    /// A window's work is done at the time `now`: how long to sleep.
    pub fn end_window(&mut self, now: u64) -> (sleep: Option<u64>)
        ensures
            final(self).next_tick == tick_after(old(self).next_tick, now),
            sleep == pause_until(old(self).next_tick, now),
    {
        if self.next_tick > now {
            Some(self.next_tick - now)
        } else {
            self.next_tick = now;
            None
        }
    }
}

/// A device that fell behind does not hurry: the next window's time is counted from when the last
/// one's work was done at the earliest, so that no window is given less than its length. Where the
/// clock does not run backwards, no pause lasts longer than a window, and it ends on the tick.
pub proof fn law_no_catching_up(begun: u64, tick: u64, now: u64)
    requires
        tick == begun + WINDOW_NS,
        begun <= now,
    ensures
        tick_after(tick, now) >= now,
        tick_after(tick, now) >= tick,
        pause_until(tick, now) matches Some(pause) ==> pause <= WINDOW_NS && now + pause == tick,
        pause_until(tick, now) is None ==> tick_after(tick, now) == now,
{
}

/// The tick of a window that is done in time stands, and is slept up to; one that is done late
/// starts anew from then on, without a pause.
pub proof fn law_pause_ends_on_the_tick(tick: u64, now: u64)
    ensures
        now < tick ==> tick_after(tick, now) == tick,
        now < tick ==> (pause_until(tick, now) matches Some(pause) && now + pause == tick),
        now >= tick ==> tick_after(tick, now) == now,
        now >= tick ==> pause_until(tick, now) is None,
{
}

/// Capping a buffer keeps its end: at most `max` bytes, less than a whole sample below that where
/// bytes were dropped. What is dropped is whole samples, unless no byte at all may stay.
pub proof fn law_capped_keeps_the_newest_whole_samples(buffer: Seq<u8>, max: nat)
    ensures
        ({
            let kept = capped(buffer, max);
            let dropped = (buffer.len() - kept.len()) as nat;
            &&& kept.len() <= max
            &&& kept == buffer.skip(dropped as int)
            &&& buffer.len() <= max ==> dropped == 0
            &&& buffer.len() > max ==> kept.len() + 1 >= max
            &&& max > 0 ==> dropped % 2 == 0
        }),
{
}

/// Capping as bytes come in keeps what capping once at the end would keep.
pub proof fn law_capping_in_steps(buffer: Seq<u8>, more: Seq<u8>, max: nat)
    ensures
        capped(capped(buffer, max) + more, max) == capped(buffer + more, max),
{
    let total = buffer + more;
    let first = bytes_over(buffer.len(), max);
    assert(capped(buffer, max) + more =~= total.skip(first as int));
    let second = bytes_over((total.len() - first) as nat, max);
    assert(first + second == bytes_over(total.len(), max));
    assert(total.skip(first as int).skip(second as int) =~= total.skip((first + second) as int));
}

/// The bytes of a sample give the sample back.
proof fn lemma_sample_reads_back(sample: i16)
    ensures
        sample_of(low_byte(sample), high_byte(sample)) == sample,
{
}

/// Samples written as bytes are read back as they were: a window taken from a buffer that begins
/// with them holds as many of them as go into a window, and the others stay.
pub proof fn law_samples_read_back(samples: Seq<i16>, rest: Seq<u8>)
    ensures
        samples.len() >= 480 ==> {
            &&& window_of(pcm_bytes(samples) + rest) == samples.take(480)
            &&& after_window(pcm_bytes(samples) + rest) == pcm_bytes(samples.skip(480)) + rest
        },
        samples.len() < 480 && rest.len() == 0 ==> {
            &&& window_of(pcm_bytes(samples)) == samples + Seq::new(
                (480 - samples.len()) as nat,
                |i: int| 0i16,
            )
            &&& after_window(pcm_bytes(samples)).len() == 0
        },
{
    let bytes = pcm_bytes(samples) + rest;
    assert forall|i: int| 0 <= i < samples.len() implies sample_of(
        #[trigger] bytes[2 * i],
        bytes[2 * i + 1],
    ) == samples[i] by {
        lemma_sample_reads_back(samples[i]);
        assert(bytes[2 * i] == low_byte(samples[i]));
        assert(bytes[2 * i + 1] == high_byte(samples[i]));
    }
    if samples.len() >= 480 {
        assert forall|i: int| 0 <= i < 480 implies window_of(bytes)[i] == samples.take(480)[i] by {
            assert(sample_of(bytes[2 * i], bytes[2 * i + 1]) == samples[i]);
        }
        assert(window_of(bytes) =~= samples.take(480));
        assert(after_window(bytes) =~= pcm_bytes(samples.skip(480)) + rest);
    }
    if samples.len() < 480 && rest.len() == 0 {
        assert(bytes =~= pcm_bytes(samples));
        let padded = samples + Seq::new((480 - samples.len()) as nat, |i: int| 0i16);
        assert forall|i: int| 0 <= i < 480 implies window_of(bytes)[i] == padded[i] by {
            if i < samples.len() {
                assert(sample_of(bytes[2 * i], bytes[2 * i + 1]) == samples[i]);
            }
        }
        assert(window_of(bytes) =~= padded);
    }
}

/// Where a drain of a buffer stands.
pub struct DrainTrace {
    /// The bytes that the socket took.
    pub sent: Seq<u8>,
    /// The buffer.
    pub left: Seq<u8>,
    /// Whether more is to be written, and from which index on.
    pub step: DrainStep,
}

/// A drain of `buffer` after writes that came to `outcomes`; none is made once it has ended.
pub open spec fn drain_after(buffer: Seq<u8>, outcomes: Seq<WriteOutcome>) -> DrainTrace
    decreases outcomes.len(),
{
    if outcomes.len() == 0 {
        DrainTrace { sent: seq![], left: buffer, step: DrainStep::More(0) }
    } else {
        let before = drain_after(buffer, outcomes.drop_last());
        match before.step {
            DrainStep::More(written) => {
                let outcome = outcomes.last();
                DrainTrace {
                    sent: before.sent + before.left.subrange(
                        written as int,
                        written_after(written as nat, outcome) as int,
                    ),
                    left: drained(before.left, written as nat, outcome),
                    step: drain_step(before.left.len(), written as nat, outcome),
                }
            },
            _ => before,
        }
    }
}

/// The socket takes no more bytes than it is offered, at any of the writes.
pub open spec fn are_possible_writes(buffer: Seq<u8>, outcomes: Seq<WriteOutcome>) -> bool
    decreases outcomes.len(),
{
    outcomes.len() > 0 ==> {
        let before = drain_after(buffer, outcomes.drop_last());
        &&& are_possible_writes(buffer, outcomes.drop_last())
        &&& before.step matches DrainStep::More(written) ==> is_possible_write(
            before.left.len(),
            written as nat,
            outcomes.last(),
        )
    }
}

/// Draining loses nothing and repeats nothing: what was sent is the front of the buffer, and once
/// the drain has ended the buffer is what was not sent.
pub proof fn law_drain_removes_what_was_written(buffer: Seq<u8>, outcomes: Seq<WriteOutcome>)
    requires
        buffer.len() <= usize::MAX,
        are_possible_writes(buffer, outcomes),
    ensures
        ({
            let trace = drain_after(buffer, outcomes);
            match trace.step {
                DrainStep::More(written) => {
                    &&& trace.left == buffer
                    &&& written <= buffer.len()
                    &&& trace.sent == buffer.take(written as int)
                },
                _ => trace.sent + trace.left == buffer,
            }
        }),
    decreases outcomes.len(),
{
    let trace = drain_after(buffer, outcomes);
    if outcomes.len() == 0 {
        assert(trace.sent =~= buffer.take(0));
    } else {
        law_drain_removes_what_was_written(buffer, outcomes.drop_last());
        let before = drain_after(buffer, outcomes.drop_last());
        if let DrainStep::More(written) = before.step {
            let after = written_after(written as nat, outcomes.last()) as int;
            assert(trace.sent =~= buffer.take(after));
            if !(trace.step is More) {
                assert(trace.sent + trace.left =~= buffer);
            }
        }
    }
}

/// One step of the exchange with the peer.
pub enum PipeStep {
    PeerConnected,
    Playout(Seq<i16>),
    Write(nat, WriteOutcome),
    Read(ReadOutcomeView),
    Record,
}

impl PipeView {
    /// The session after a step; a step that does not fit the session is not taken.
    pub open spec fn after_step(self, step: PipeStep) -> Self {
        match step {
            PipeStep::PeerConnected => if self.connected {
                self
            } else {
                self.with_peer()
            },
            PipeStep::Playout(samples) => self.with_playout(samples),
            PipeStep::Write(written, outcome) => if self.connected && is_possible_write(
                self.playout.len(),
                written,
                outcome,
            ) {
                self.after_write(written, outcome)
            } else {
                self
            },
            PipeStep::Read(outcome) => if self.connected {
                self.after_read(outcome)
            } else {
                self
            },
            PipeStep::Record => self.after_record(),
        }
    }
}

/// A fresh session after some steps.
pub open spec fn session_after(steps: Seq<PipeStep>) -> PipeView
    decreases steps.len(),
{
    if steps.len() == 0 {
        PipeView::fresh()
    } else {
        session_after(steps.drop_last()).after_step(steps.last())
    }
}

/// Whatever happens, at most 80 ms of audio are buffered each way.
pub proof fn law_buffers_are_bounded(steps: Seq<PipeStep>)
    ensures
        session_after(steps).playout.len() <= MAX_BUFFERED,
        session_after(steps).capture.len() <= MAX_BUFFERED,
    decreases steps.len(),
{
    if steps.len() > 0 {
        law_buffers_are_bounded(steps.drop_last());
        let before = session_after(steps.drop_last());
        match steps.last() {
            PipeStep::Playout(samples) => {
                law_capped_keeps_the_newest_whole_samples(
                    before.playout + pcm_bytes(samples),
                    MAX_BUFFERED as nat,
                );
            },
            PipeStep::Read(outcome) => {
                if let ReadOutcomeView::Read(bytes) = outcome {
                    law_capped_keeps_the_newest_whole_samples(
                        before.capture + bytes,
                        MAX_BUFFERED as nat,
                    );
                }
            },
            _ => {},
        }
    }
}

/// A window of silence.
pub open spec fn silence() -> Seq<i16> {
    Seq::new(480, |i: int| 0i16)
}

/// Before a peer connects, playout is dropped and every window recorded is silence.
pub proof fn law_silence_before_a_peer_connects(steps: Seq<PipeStep>)
    requires
        forall|i: int| 0 <= i < steps.len() ==> !((#[trigger] steps[i]) is PeerConnected),
    ensures
        !session_after(steps).connected,
        session_after(steps).playout.len() == 0,
        session_after(steps).capture.len() == 0,
        window_of(session_after(steps).capture) == silence(),
    decreases steps.len(),
{
    if steps.len() > 0 {
        let front = steps.drop_last();
        assert forall|i: int| 0 <= i < front.len() implies !((#[trigger] front[i])
            is PeerConnected) by {
            assert(front[i] == steps[i]);
        }
        law_silence_before_a_peer_connects(front);
        assert(!(steps[steps.len() - 1] is PeerConnected));
    }
    assert(window_of(session_after(steps).capture) =~= silence());
}

/// After the peer has gone, what it had sent is still handed over; once less than a sample is
/// left, every window is silence.
pub proof fn law_silence_once_the_capture_is_used_up(capture: Seq<u8>)
    ensures
        capture.len() < 2 ==> window_of(capture) == silence() && after_window(capture) == capture,
        capture.len() >= 2 ==> after_window(capture).len() < capture.len(),
        after_window(capture).len() % 2 == capture.len() % 2,
{
    if capture.len() < 2 {
        assert(window_of(capture) =~= silence());
        assert(after_window(capture) =~= capture);
    }
}

/// The flags after some events.
pub open spec fn flags_after(events: Seq<Option<AudioControlEvent>>) -> AudioFlags
    decreases events.len(),
{
    if events.len() == 0 {
        AudioFlags::fresh()
    } else {
        flags_after(events.drop_last()).after(events.last())
    }
}

/// Once the device is to stop, no event changes anything.
pub proof fn law_termination_is_final(
    events: Seq<Option<AudioControlEvent>>,
    more: Seq<Option<AudioControlEvent>>,
)
    requires
        flags_after(events).terminate,
    ensures
        flags_after(events + more) == flags_after(events),
    decreases more.len(),
{
    if more.len() == 0 {
        assert(events + more =~= events);
    } else {
        assert((events + more).drop_last() =~= events + more.drop_last());
        law_termination_is_final(events, more.drop_last());
    }
}


/// A buffer that bytes are read into keeps the newest of all its audio: nothing is dropped while
/// old and new bytes together are at most `max`, and beyond that no more than the excess, in whole
/// samples.
pub proof fn law_fill_keeps_the_newest_audio(buffer: Seq<u8>, bytes: Seq<u8>, max: nat)
    requires
        bytes.len() > 0,
        max > 0,
    ensures
        ({
            let total = buffer + bytes;
            let kept = filled(buffer, max, ReadOutcomeView::Read(bytes));
            &&& kept.len() <= total.len()
            &&& kept == total.skip(total.len() - kept.len())
            &&& total.len() <= max ==> kept.len() == total.len()
            &&& total.len() > max ==> kept.len() == max || kept.len() + 1 == max
            &&& (total.len() - kept.len()) % 2 == 0
        }),
{
    let total = buffer + bytes;
    law_capped_keeps_the_newest_whole_samples(total, max);
    assert(total.skip(0) =~= total);
}

/// What a read does to a session. Bytes join the capture, of which the newest 7680 stay, or 7679
/// where samples would be torn apart otherwise; a socket that has nothing changes nothing; the end
/// of the stream or a failure loses the peer and nothing else. Reading goes on after bytes alone.
pub proof fn law_read_keeps_the_newest_80_ms(session: PipeView, outcome: ReadOutcomeView)
    ensures
        ({
            let after = session.after_read(outcome);
            &&& after.playout == session.playout
            &&& match outcome {
                ReadOutcomeView::Read(bytes) => if bytes.len() > 0 {
                    let total = session.capture + bytes;
                    &&& fill_step(outcome) is More
                    &&& after.connected == session.connected
                    &&& after.capture.len() <= total.len()
                    &&& after.capture == total.skip(total.len() - after.capture.len())
                    &&& total.len() <= 7680 ==> after.capture.len() == total.len()
                    &&& total.len() > 7680 ==> 7679 <= after.capture.len() <= 7680
                    &&& (total.len() - after.capture.len()) % 2 == 0
                } else {
                    &&& fill_step(outcome) is PeerClosed
                    &&& !after.connected
                    &&& after.capture == session.capture
                },
                ReadOutcomeView::WouldBlock => {
                    &&& fill_step(outcome) is Done
                    &&& after.connected == session.connected
                    &&& after.capture == session.capture
                },
                ReadOutcomeView::Failed => {
                    &&& fill_step(outcome) is Failed
                    &&& !after.connected
                    &&& after.capture == session.capture
                },
            }
        }),
{
    if let ReadOutcomeView::Read(bytes) = outcome {
        if bytes.len() > 0 {
            law_fill_keeps_the_newest_audio(session.capture, bytes, 7680);
        }
    }
}

/// Samples go out low byte first, each as its value modulo 2^16.
pub proof fn law_pcm_is_little_endian(samples: Seq<i16>)
    ensures
        pcm_bytes(samples).len() == 2 * samples.len(),
        forall|i: int|
            #![trigger samples[i]]
            0 <= i < samples.len() ==> pcm_bytes(samples)[2 * i] + 256 * pcm_bytes(
                samples,
            )[2 * i + 1] == if samples[i] >= 0 {
                samples[i] as int
            } else {
                samples[i] + 65536
            },
{
    assert forall|i: int| #![trigger samples[i]] 0 <= i < samples.len() implies pcm_bytes(
        samples,
    )[2 * i] + 256 * pcm_bytes(samples)[2 * i + 1] == if samples[i] >= 0 {
        samples[i] as int
    } else {
        samples[i] + 65536
    } by {
        assert(pcm_bytes(samples)[2 * i] == low_byte(samples[i]));
        assert(pcm_bytes(samples)[2 * i + 1] == high_byte(samples[i]));
    }
}

/// A window holds 480 samples, made of the first bytes of the buffer, low byte first, and silence
/// where the buffer has no whole sample left. The bytes of its samples leave the buffer, no others.
pub proof fn law_window_is_the_front_of_the_buffer(buffer: Seq<u8>)
    ensures
        window_of(buffer).len() == 480,
        forall|i: int|
            #![trigger window_of(buffer)[i]]
            0 <= i < 480 ==> {
                let sample = window_of(buffer)[i];
                if 2 * i + 1 < buffer.len() {
                    &&& -32768 <= sample <= 32767
                    &&& sample == buffer[2 * i] + 256 * buffer[2 * i + 1] || sample + 65536
                        == buffer[2 * i] + 256 * buffer[2 * i + 1]
                } else {
                    sample == 0
                }
            },
        buffer.len() >= 960 ==> after_window(buffer) == buffer.skip(960),
        buffer.len() < 960 ==> after_window(buffer) == buffer.skip(
            buffer.len() - buffer.len() % 2,
        ),
{
    assert forall|i: int| #![trigger window_of(buffer)[i]] 0 <= i < 480 implies {
        let sample = window_of(buffer)[i];
        if 2 * i + 1 < buffer.len() {
            &&& -32768 <= sample <= 32767
            &&& sample == buffer[2 * i] + 256 * buffer[2 * i + 1] || sample + 65536 == buffer[2 * i]
                + 256 * buffer[2 * i + 1]
        } else {
            sample == 0
        }
    } by {
        if 2 * i + 1 < buffer.len() {
            assert(window_of(buffer)[i] == sample_of(buffer[2 * i], buffer[2 * i + 1]));
        }
    }
}

/// Playout is queued behind what is queued already while a peer is there, and the newest 7680
/// bytes stay, or 7679 where samples would be torn apart otherwise; without a peer it is dropped.
/// The capture stays as it was.
pub proof fn law_playout_keeps_the_newest_80_ms(session: PipeView, samples: Seq<i16>)
    ensures
        ({
            let after = session.with_playout(samples);
            let total = session.playout + pcm_bytes(samples);
            &&& after.connected == session.connected
            &&& after.capture == session.capture
            &&& !session.connected ==> after.playout == session.playout
            &&& session.connected ==> {
                &&& after.playout.len() <= total.len()
                &&& after.playout == total.skip(total.len() - after.playout.len())
                &&& total.len() <= 7680 ==> after.playout.len() == total.len()
                &&& total.len() > 7680 ==> 7679 <= after.playout.len() <= 7680
                &&& (total.len() - after.playout.len()) % 2 == 0
            }
        }),
{
    let total = session.playout + pcm_bytes(samples);
    law_capped_keeps_the_newest_whole_samples(total, 7680);
    assert(total.skip(0) =~= total);
}

/// What a write does to a session. Writing goes on from behind the bytes taken exactly while the
/// socket takes some and not all; when it ends, the bytes taken leave the queue, no others. The
/// peer is lost exactly by a failure, and the capture stays as it was.
pub proof fn law_write_goes_on_while_bytes_are_taken(
    session: PipeView,
    written: nat,
    taken: nat,
    outcome: WriteOutcome,
)
    requires
        session.playout.len() <= usize::MAX,
        is_possible_write(session.playout.len(), written, outcome),
        taken == match outcome {
            WriteOutcome::Wrote(n) => n as nat,
            _ => 0,
        },
    ensures
        ({
            let len = session.playout.len();
            let step = drain_step(len, written, outcome);
            let after = session.after_write(written, outcome);
            let goes_on = taken > 0 && written + taken < len;
            &&& written + taken <= len
            &&& goes_on <==> step is More
            &&& step matches DrainStep::More(from) ==> from == written + taken
            &&& step is Failed <==> outcome is Failed
            &&& goes_on ==> after.playout == session.playout
            &&& !goes_on ==> after.playout == session.playout.skip((written + taken) as int)
            &&& after.connected == (session.connected && !(outcome is Failed))
            &&& after.capture == session.capture
        }),
{
}

/// A new peer finds both buffers empty; handing a window over changes the capture alone.
pub proof fn law_session_changes(session: PipeView)
    ensures
        session.with_peer().connected,
        session.with_peer().playout.len() == 0,
        session.with_peer().capture.len() == 0,
        session.after_record().connected == session.connected,
        session.after_record().playout == session.playout,
        session.capture.len() >= 960 ==> session.after_record().capture == session.capture.skip(
            960,
        ),
        session.capture.len() < 960 ==> session.after_record().capture.len()
            == session.capture.len() % 2,
{
    law_window_is_the_front_of_the_buffer(session.capture);
}

/// An event that starts or stops playout.
pub open spec fn is_playout_event(event: Option<AudioControlEvent>) -> bool {
    event == Some(AudioControlEvent::StartPlayout) || event == Some(AudioControlEvent::StopPlayout)
}

/// An event that starts recording.
pub open spec fn is_recording_start(event: Option<AudioControlEvent>) -> bool {
    event matches Some(AudioControlEvent::StartRecording { .. })
}

/// An event that starts or stops recording.
pub open spec fn is_recording_event(event: Option<AudioControlEvent>) -> bool {
    is_recording_start(event) || event == Some(AudioControlEvent::StopRecording)
}

/// An event after which none counts: the order to stop, or the end of the events.
pub open spec fn is_last_event(event: Option<AudioControlEvent>) -> bool {
    event is None || event == Some(AudioControlEvent::Terminate)
}

/// The first `count` events hold none after which no event counts.
pub open spec fn all_count(events: Seq<Option<AudioControlEvent>>, count: int) -> bool {
    forall|i: int| 0 <= i < count ==> !is_last_event(#[trigger] events[i])
}

/// Of the first `count` events, the one at `last` is the last to start or stop playout; `last` is
/// -1 where there is none.
pub open spec fn is_last_playout_event(
    events: Seq<Option<AudioControlEvent>>,
    count: int,
    last: int,
) -> bool {
    &&& -1 <= last < count
    &&& last >= 0 ==> is_playout_event(events[last])
    &&& forall|i: int| last < i < count ==> !is_playout_event(#[trigger] events[i])
}

/// Of the first `count` events, the one at `last` is the last to start or stop recording; `last` is
/// -1 where there is none.
pub open spec fn is_last_recording_event(
    events: Seq<Option<AudioControlEvent>>,
    count: int,
    last: int,
) -> bool {
    &&& -1 <= last < count
    &&& last >= 0 ==> is_recording_event(events[last])
    &&& forall|i: int| last < i < count ==> !is_recording_event(#[trigger] events[i])
}

/// Of the first `count` events, the one at `last` is the last to start recording; `last` is -1
/// where there is none.
pub open spec fn is_last_recording_start(
    events: Seq<Option<AudioControlEvent>>,
    count: int,
    last: int,
) -> bool {
    &&& -1 <= last < count
    &&& last >= 0 ==> is_recording_start(events[last])
    &&& forall|i: int| last < i < count ==> !is_recording_start(#[trigger] events[i])
}

/// Each flag follows its own events: the device plays where the last of the events that start and
/// stop playout was a start, records where the last of those that start and stop recording was one,
/// and hands over what the last start of recording said, or where there was none. It is to stop as
/// soon as it is told to, or no more events come; events after that change nothing.
pub proof fn law_each_flag_follows_its_own_events(
    events: Seq<Option<AudioControlEvent>>,
    count: int,
    playout: int,
    recording: int,
    start: int,
)
    requires
        0 <= count <= events.len(),
        all_count(events, count),
        count < events.len() ==> is_last_event(events[count]),
        is_last_playout_event(events, count, playout),
        is_last_recording_event(events, count, recording),
        is_last_recording_start(events, count, start),
    ensures
        ({
            let flags = flags_after(events);
            &&& flags.playing == (playout >= 0 && events[playout] == Some(
                AudioControlEvent::StartPlayout,
            ))
            &&& flags.recording == (recording >= 0 && events[recording] != Some(
                AudioControlEvent::StopRecording,
            ))
            &&& start < 0 ==> flags.send_to_webrtc
            &&& start >= 0 ==> events[start] == Some(
                AudioControlEvent::StartRecording { send_to_webrtc: flags.send_to_webrtc },
            )
            &&& flags.terminate == (count < events.len())
        }),
    decreases events.len(),
{
    if events.len() > 0 {
        let front = events.drop_last();
        let last = events.len() - 1;
        if count < events.len() - 1 {
            law_each_flag_follows_its_own_events(front, count, playout, recording, start);
        } else if count == events.len() - 1 {
            law_each_flag_follows_its_own_events(front, count, playout, recording, start);
            assert(is_last_event(events[last]));
        } else {
            assert(!is_last_event(events[last]));
            lemma_flag_events(events, playout, recording, start);
        }
    }
}

proof fn lemma_flag_events(
    events: Seq<Option<AudioControlEvent>>,
    playout: int,
    recording: int,
    start: int,
)
    requires
        all_count(events, events.len() as int),
        is_last_playout_event(events, events.len() as int, playout),
        is_last_recording_event(events, events.len() as int, recording),
        is_last_recording_start(events, events.len() as int, start),
    ensures
        ({
            let flags = flags_after(events);
            &&& flags.playing == (playout >= 0 && events[playout] == Some(
                AudioControlEvent::StartPlayout,
            ))
            &&& flags.recording == (recording >= 0 && events[recording] != Some(
                AudioControlEvent::StopRecording,
            ))
            &&& start < 0 ==> flags.send_to_webrtc
            &&& start >= 0 ==> events[start] == Some(
                AudioControlEvent::StartRecording { send_to_webrtc: flags.send_to_webrtc },
            )
            &&& !flags.terminate
        }),
    decreases events.len(),
{
    if events.len() > 0 {
        let front = events.drop_last();
        let last = events.len() - 1;
        assert(!is_last_event(events[last]));
        let playout_before = lemma_last_playout_event(front);
        let recording_before = lemma_last_recording_event(front);
        let start_before = lemma_last_recording_start(front);
        lemma_flag_events(front, playout_before, recording_before, start_before);
        assert(forall|i: int| 0 <= i < last ==> front[i] == events[i]);
        if is_playout_event(events[last]) {
            assert(playout == last);
        } else {
            assert(playout < last);
            lemma_same_last_playout_event(front, playout, playout_before);
        }
        if is_recording_event(events[last]) {
            assert(recording == last);
        } else {
            assert(recording < last);
            lemma_same_last_recording_event(front, recording, recording_before);
        }
        if is_recording_start(events[last]) {
            assert(start == last);
        } else {
            assert(start < last);
            lemma_same_last_recording_start(front, start, start_before);
        }
    }
}

proof fn lemma_last_playout_event(events: Seq<Option<AudioControlEvent>>) -> (last: int)
    ensures
        is_last_playout_event(events, events.len() as int, last),
    decreases events.len(),
{
    if events.len() == 0 {
        -1
    } else if is_playout_event(events[events.len() - 1]) {
        events.len() - 1
    } else {
        let front = events.drop_last();
        let last = lemma_last_playout_event(front);
        assert(forall|i: int| 0 <= i < front.len() ==> front[i] == events[i]);
        assert forall|i: int| last < i < events.len() implies !is_playout_event(
            #[trigger] events[i],
        ) by {
            if i < front.len() {
                assert(!is_playout_event(front[i]));
            }
        }
        last
    }
}

proof fn lemma_same_last_playout_event(
    events: Seq<Option<AudioControlEvent>>,
    a: int,
    b: int,
)
    requires
        is_last_playout_event(events, events.len() as int, a),
        is_last_playout_event(events, events.len() as int, b),
    ensures
        a == b,
{
    if a < b {
        assert(!is_playout_event(events[b]));
    } else if b < a {
        assert(!is_playout_event(events[a]));
    }
}

proof fn lemma_last_recording_event(events: Seq<Option<AudioControlEvent>>) -> (last: int)
    ensures
        is_last_recording_event(events, events.len() as int, last),
    decreases events.len(),
{
    if events.len() == 0 {
        -1
    } else if is_recording_event(events[events.len() - 1]) {
        events.len() - 1
    } else {
        let front = events.drop_last();
        let last = lemma_last_recording_event(front);
        assert(forall|i: int| 0 <= i < front.len() ==> front[i] == events[i]);
        assert forall|i: int| last < i < events.len() implies !is_recording_event(
            #[trigger] events[i],
        ) by {
            if i < front.len() {
                assert(!is_recording_event(front[i]));
            }
        }
        last
    }
}

proof fn lemma_same_last_recording_event(
    events: Seq<Option<AudioControlEvent>>,
    a: int,
    b: int,
)
    requires
        is_last_recording_event(events, events.len() as int, a),
        is_last_recording_event(events, events.len() as int, b),
    ensures
        a == b,
{
    if a < b {
        assert(!is_recording_event(events[b]));
    } else if b < a {
        assert(!is_recording_event(events[a]));
    }
}

proof fn lemma_last_recording_start(events: Seq<Option<AudioControlEvent>>) -> (last: int)
    ensures
        is_last_recording_start(events, events.len() as int, last),
    decreases events.len(),
{
    if events.len() == 0 {
        -1
    } else if is_recording_start(events[events.len() - 1]) {
        events.len() - 1
    } else {
        let front = events.drop_last();
        let last = lemma_last_recording_start(front);
        assert(forall|i: int| 0 <= i < front.len() ==> front[i] == events[i]);
        assert forall|i: int| last < i < events.len() implies !is_recording_start(
            #[trigger] events[i],
        ) by {
            if i < front.len() {
                assert(!is_recording_start(front[i]));
            }
        }
        last
    }
}

proof fn lemma_same_last_recording_start(
    events: Seq<Option<AudioControlEvent>>,
    a: int,
    b: int,
)
    requires
        is_last_recording_start(events, events.len() as int, a),
        is_last_recording_start(events, events.len() as int, b),
    ensures
        a == b,
{
    if a < b {
        assert(!is_recording_start(events[b]));
    } else if b < a {
        assert(!is_recording_start(events[a]));
    }
}

/// A session shows what it holds, and the outcome of a read the bytes that were read.
pub proof fn law_session_shows_what_it_holds(session: PipeSession, outcome: ReadOutcome)
    ensures
        session@.connected == session.connected,
        session@.playout == session.playout@,
        session@.capture == session.capture@,
        outcome matches ReadOutcome::Read(bytes) ==> outcome@ == ReadOutcomeView::Read(bytes@),
        outcome is WouldBlock ==> outcome@ is WouldBlock,
        outcome is Failed ==> outcome@ is Failed,
{
}

} // verus!
