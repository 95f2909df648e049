//! PCM buffers, the pipe session, the device's flags and its pace.

use signal_call_tunnel::pipe_audio::{
    cap_buffer, drain_playout, fill_capture, take_window, AudioControlEvent, AudioFlags, DrainStep,
    FillStep, Pacer, PipeSession, ReadOutcome, WriteOutcome, BYTES_PER_SAMPLE, DEVICE_NAME,
    MAX_BUFFERED, NUM_CHANNELS, PIPE_PLAYOUT_DELAY_MS, SAMPLE_FREQUENCY, WEBRTC_WINDOW, WINDOW_MS,
    WINDOW_NS,
};

fn connected() -> PipeSession {
    let mut session = PipeSession::new();
    session.peer_connected();
    session
}

fn recording() -> AudioFlags {
    let mut flags = AudioFlags::new();
    flags.apply(Some(AudioControlEvent::StartRecording { send_to_webrtc: true }));
    flags
}

#[test]
fn constants_fit_together() {
    assert_eq!(SAMPLE_FREQUENCY, 48_000);
    assert_eq!(NUM_CHANNELS, 1);
    assert_eq!(WEBRTC_WINDOW, SAMPLE_FREQUENCY as usize / 100);
    assert_eq!(BYTES_PER_SAMPLE, std::mem::size_of::<i16>());
    assert_eq!(MAX_BUFFERED, WEBRTC_WINDOW * BYTES_PER_SAMPLE * 8);
    assert_eq!(WINDOW_NS, WINDOW_MS * 1_000_000);
    assert_eq!(u64::from(PIPE_PLAYOUT_DELAY_MS), WINDOW_MS);
    assert_eq!(DEVICE_NAME, "Signal Call Tunnel Pipe");
}

#[test]
fn capping_drops_whole_samples_from_the_front() {
    let mut buf = vec![1, 2, 3, 4, 5, 6];
    cap_buffer(&mut buf, 6);
    assert_eq!(buf, vec![1, 2, 3, 4, 5, 6]);
    cap_buffer(&mut buf, 4);
    assert_eq!(buf, vec![3, 4, 5, 6]);
}

#[test]
fn a_capped_buffer_never_exceeds_its_bound() {
    let mut buf = vec![1, 2, 3, 4, 5];
    cap_buffer(&mut buf, 4);
    assert_eq!(buf, vec![3, 4, 5]);
    let mut buf = vec![1, 2, 3];
    cap_buffer(&mut buf, 0);
    assert!(buf.is_empty());
    for len in 0..40usize {
        for max in 0..40usize {
            let all: Vec<u8> = (0..len as u8).collect();
            let mut buf = all.clone();
            cap_buffer(&mut buf, max);
            assert!(buf.len() <= max);
            assert!(all.ends_with(&buf));
            if max > 0 {
                assert_eq!((len - buf.len()) % 2, 0);
            }
        }
    }
}

#[test]
fn capping_in_steps_is_capping_once() {
    for first in 0..12usize {
        for more in 0..12usize {
            for max in 0..9usize {
                let all: Vec<u8> = (0..(first + more) as u8).collect();
                let mut steps = all[..first].to_vec();
                cap_buffer(&mut steps, max);
                steps.extend_from_slice(&all[first..]);
                cap_buffer(&mut steps, max);
                let mut once = all;
                cap_buffer(&mut once, max);
                assert_eq!(steps, once);
            }
        }
    }
}

#[test]
fn windows_are_little_endian_and_padded() {
    let mut buf = vec![0x01, 0x00, 0xff, 0xff, 0x00, 0x80, 0xff, 0x7f, 0x09];
    let window = take_window(&mut buf);
    assert_eq!(window.len(), WEBRTC_WINDOW);
    assert_eq!(&window[..5], &[1, -1, i16::MIN, i16::MAX, 0]);
    assert!(window[4..].iter().all(|s| *s == 0));
    assert_eq!(buf, vec![0x09]);
    let silence = take_window(&mut buf);
    assert!(silence.iter().all(|s| *s == 0));
    assert_eq!(buf, vec![0x09]);
}

#[test]
fn windows_take_no_more_than_their_samples() {
    let samples: Vec<i16> = (0..600).map(|i| (i * 111 - 30_000) as i16).collect();
    let mut session = connected();
    session.queue_playout(&samples);
    let mut buf = session.playout.clone();
    assert_eq!(buf.len(), 1200);
    assert_eq!(take_window(&mut buf), samples[..480].to_vec());
    assert_eq!(buf.len(), 240);
    assert_eq!(take_window(&mut buf)[..120], samples[480..]);
    assert!(buf.is_empty());
}

#[test]
fn drains_remove_what_was_written() {
    let mut buf = vec![1, 2, 3, 4, 5];
    assert_eq!(drain_playout(&mut buf, 0, WriteOutcome::Wrote(2)), DrainStep::More(2));
    assert_eq!(buf, vec![1, 2, 3, 4, 5]);
    assert_eq!(drain_playout(&mut buf, 2, WriteOutcome::Wrote(1)), DrainStep::More(3));
    assert_eq!(drain_playout(&mut buf, 3, WriteOutcome::WouldBlock), DrainStep::Done);
    assert_eq!(buf, vec![4, 5]);
    assert_eq!(drain_playout(&mut buf, 0, WriteOutcome::Wrote(0)), DrainStep::Done);
    assert_eq!(buf, vec![4, 5]);
    assert_eq!(drain_playout(&mut buf, 0, WriteOutcome::Wrote(2)), DrainStep::Done);
    assert!(buf.is_empty());
    let mut buf = vec![1, 2, 3];
    assert_eq!(drain_playout(&mut buf, 1, WriteOutcome::Failed), DrainStep::Failed);
    assert_eq!(buf, vec![2, 3]);
}

#[test]
fn fills_append_until_nothing_is_there() {
    let mut buf = vec![1];
    assert_eq!(fill_capture(&mut buf, 4, ReadOutcome::Read(vec![2, 3])), FillStep::More);
    assert_eq!(buf, vec![1, 2, 3]);
    assert_eq!(fill_capture(&mut buf, 4, ReadOutcome::Read(vec![4, 5, 6])), FillStep::More);
    assert_eq!(buf, vec![3, 4, 5, 6]);
    assert_eq!(fill_capture(&mut buf, 4, ReadOutcome::WouldBlock), FillStep::Done);
    assert_eq!(fill_capture(&mut buf, 4, ReadOutcome::Failed), FillStep::Failed);
    assert_eq!(fill_capture(&mut buf, 4, ReadOutcome::Read(vec![])), FillStep::PeerClosed);
    assert_eq!(buf, vec![3, 4, 5, 6]);
}

#[test]
fn without_a_peer_playout_is_dropped_and_recording_is_silent() {
    let mut session = PipeSession::new();
    assert!(session.wants_peer());
    session.queue_playout(&vec![1; 480]);
    assert!(session.playout.is_empty());
    assert!(!session.wants_write());
    assert_eq!(session.record(&recording()), Some(vec![0; 480]));
}

#[test]
fn sessions_lose_their_peer() {
    let mut session = connected();
    assert!(!session.wants_peer());
    session.queue_playout(&vec![0x0102, -2]);
    assert_eq!(session.playout, vec![0x02, 0x01, 0xfe, 0xff]);
    assert!(session.wants_write());
    assert_eq!(session.after_write(0, WriteOutcome::Wrote(3)), DrainStep::More(3));
    assert_eq!(session.after_write(3, WriteOutcome::Failed), DrainStep::Failed);
    assert!(session.wants_peer());
    assert_eq!(session.playout, vec![0xff]);

    let mut session = connected();
    assert_eq!(session.after_read(ReadOutcome::Read(vec![5, 0, 6, 0])), FillStep::More);
    assert_eq!(session.after_read(ReadOutcome::Read(vec![])), FillStep::PeerClosed);
    assert!(session.wants_peer());
    // What the peer had sent is still handed over.
    let window = session.record(&recording()).unwrap();
    assert_eq!(&window[..3], &[5, 6, 0]);
    assert_eq!(session.record(&recording()), Some(vec![0; 480]));

    let mut session = connected();
    assert_eq!(session.after_read(ReadOutcome::Failed), FillStep::Failed);
    assert!(!session.connected);
}

#[test]
fn a_new_peer_starts_with_empty_buffers() {
    let mut session = connected();
    session.queue_playout(&vec![1, 2]);
    assert_eq!(session.after_read(ReadOutcome::Read(vec![1, 2])), FillStep::More);
    assert_eq!(session.after_read(ReadOutcome::Failed), FillStep::Failed);
    session.peer_connected();
    assert!(session.connected);
    assert!(session.playout.is_empty());
    assert!(session.capture.is_empty());
}

#[test]
fn buffers_hold_eighty_milliseconds() {
    let mut session = connected();
    for n in 0..20i16 {
        session.queue_playout(&vec![n; 480]);
        session.after_read(ReadOutcome::Read(vec![n as u8; 4095]));
        assert!(session.playout.len() <= MAX_BUFFERED);
        assert!(session.capture.len() <= MAX_BUFFERED);
    }
    assert_eq!(session.playout.len(), MAX_BUFFERED);
    assert_eq!(session.playout[0], 12);
    assert_eq!(session.playout[MAX_BUFFERED - 2], 19);
}

#[test]
fn flags_follow_the_events() {
    let mut flags = AudioFlags::new();
    assert!(!flags.playing && !flags.recording && flags.send_to_webrtc && !flags.terminate);
    flags.apply(Some(AudioControlEvent::StartPlayout));
    assert!(flags.playing);
    flags.apply(Some(AudioControlEvent::StartRecording { send_to_webrtc: false }));
    assert!(flags.recording && !flags.send_to_webrtc);
    assert_eq!(PipeSession::new().record(&flags), None);
    flags.apply(Some(AudioControlEvent::Other));
    flags.apply(Some(AudioControlEvent::StopPlayout));
    flags.apply(Some(AudioControlEvent::StopRecording));
    assert!(!flags.playing && !flags.recording && !flags.terminate);
    assert_eq!(PipeSession::new().record(&flags), None);
}

#[test]
fn termination_is_final() {
    let mut flags = AudioFlags::new();
    flags.apply(Some(AudioControlEvent::Terminate));
    assert!(flags.terminate);
    let stopped = flags;
    flags.apply(Some(AudioControlEvent::StartPlayout));
    flags.apply(Some(AudioControlEvent::StartRecording { send_to_webrtc: false }));
    flags.apply(None);
    assert_eq!(flags, stopped);
    let mut flags = AudioFlags::new();
    flags.apply(None);
    assert!(flags.terminate);
}

#[test]
fn a_late_window_is_not_caught_up() {
    let mut pacer = Pacer::new(1_000);
    pacer.begin_window();
    assert_eq!(pacer.end_window(4_001_000), Some(6_000_000));
    pacer.begin_window();
    assert_eq!(pacer.next_tick, 20_001_000);
    assert_eq!(pacer.end_window(20_001_000), None);
    pacer.begin_window();
    assert_eq!(pacer.end_window(95_000_000), None);
    assert_eq!(pacer.next_tick, 95_000_000);
    pacer.begin_window();
    assert_eq!(pacer.end_window(95_000_000), Some(WINDOW_NS));
}
