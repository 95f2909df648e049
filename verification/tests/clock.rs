//! The clock loop, window by window.

use signal_call_tunnel::audio_clock::{ClockAction, ClockEvent, ClockLoop, Turn};
use signal_call_tunnel::pipe_audio::{
    AudioControlEvent, AudioFlags, ReadOutcome, WriteOutcome, WINDOW_NS,
};

fn both_ways() -> AudioFlags {
    let mut flags = AudioFlags::new();
    flags.apply(Some(AudioControlEvent::StartPlayout));
    flags.apply(Some(AudioControlEvent::StartRecording { send_to_webrtc: true }));
    flags
}

#[test]
fn an_idle_device_only_looks_for_a_peer() {
    let flags = AudioFlags::new();
    let mut clock = ClockLoop::new(0);
    assert!(matches!(clock.next(ClockEvent::NextWindow, &flags), ClockAction::Accept));
    assert!(matches!(clock.next(ClockEvent::Peer(false), &flags), ClockAction::TellTime));
    assert!(matches!(
        clock.next(ClockEvent::Time(3_000_000), &flags),
        ClockAction::Pause(Some(7_000_000))
    ));
    assert_eq!(clock.turn, Turn::Window);
}

#[test]
fn without_a_peer_windows_are_pulled_and_silence_is_pushed() {
    let flags = both_ways();
    let mut clock = ClockLoop::new(0);
    assert!(matches!(clock.next(ClockEvent::NextWindow, &flags), ClockAction::Accept));
    assert!(matches!(clock.next(ClockEvent::Peer(false), &flags), ClockAction::Pull));
    match clock.next(ClockEvent::Playout(vec![7; 480]), &flags) {
        ClockAction::Push(samples) => assert_eq!(samples, vec![0; 480]),
        other => panic!("expected Push, got {:?}", other),
    }
    assert!(clock.session.playout.is_empty());
    assert!(matches!(clock.next(ClockEvent::Pushed, &flags), ClockAction::TellTime));
}

#[test]
fn a_window_with_a_peer_goes_through_all_turns() {
    let flags = both_ways();
    let mut clock = ClockLoop::new(0);
    assert!(matches!(clock.next(ClockEvent::NextWindow, &flags), ClockAction::Accept));
    assert!(matches!(clock.next(ClockEvent::Peer(true), &flags), ClockAction::Pull));
    let playout = ClockEvent::Playout(vec![1, 2, 3]);
    assert!(matches!(clock.next(playout, &flags), ClockAction::Write(0)));
    assert!(matches!(
        clock.next(ClockEvent::Write(WriteOutcome::Wrote(4)), &flags),
        ClockAction::Write(4)
    ));
    assert!(matches!(
        clock.next(ClockEvent::Write(WriteOutcome::Wrote(2)), &flags),
        ClockAction::Read
    ));
    assert!(clock.session.playout.is_empty());
    let bytes = ReadOutcome::Read(vec![9, 0]);
    assert!(matches!(clock.next(ClockEvent::Read(bytes), &flags), ClockAction::Read));
    match clock.next(ClockEvent::Read(ReadOutcome::WouldBlock), &flags) {
        ClockAction::Push(samples) => {
            assert_eq!(samples.len(), 480);
            assert_eq!(samples[0], 9);
            assert!(samples[1..].iter().all(|s| *s == 0));
        }
        other => panic!("expected Push, got {:?}", other),
    }
    assert!(matches!(clock.next(ClockEvent::Pushed, &flags), ClockAction::TellTime));
    assert!(matches!(
        clock.next(ClockEvent::Time(WINDOW_NS + 5), &flags),
        ClockAction::Pause(None)
    ));
    assert_eq!(clock.pacer.next_tick, WINDOW_NS + 5);
    // With a peer there, none is looked for.
    assert!(matches!(clock.next(ClockEvent::NextWindow, &flags), ClockAction::Pull));
}

#[test]
fn a_failed_write_skips_the_read() {
    let flags = both_ways();
    let mut clock = ClockLoop::new(0);
    clock.next(ClockEvent::NextWindow, &flags);
    clock.next(ClockEvent::Peer(true), &flags);
    clock.next(ClockEvent::Playout(vec![1, 2, 3]), &flags);
    match clock.next(ClockEvent::Write(WriteOutcome::Failed), &flags) {
        ClockAction::Push(samples) => assert_eq!(samples, vec![0; 480]),
        other => panic!("expected Push, got {:?}", other),
    }
    assert!(!clock.session.connected);
    assert_eq!(clock.session.playout.len(), 6);
    clock.next(ClockEvent::Pushed, &flags);
    clock.next(ClockEvent::Time(0), &flags);
    assert!(matches!(clock.next(ClockEvent::NextWindow, &flags), ClockAction::Accept));
}

#[test]
fn a_peer_that_leaves_is_looked_for_again() {
    let mut flags = AudioFlags::new();
    let mut clock = ClockLoop::new(0);
    clock.next(ClockEvent::NextWindow, &flags);
    assert!(matches!(clock.next(ClockEvent::Peer(true), &flags), ClockAction::Read));
    assert!(matches!(
        clock.next(ClockEvent::Read(ReadOutcome::Read(vec![])), &flags),
        ClockAction::TellTime
    ));
    clock.next(ClockEvent::Time(1), &flags);
    assert!(matches!(clock.next(ClockEvent::NextWindow, &flags), ClockAction::Accept));
    // The flags count as they are at each turn.
    flags.apply(Some(AudioControlEvent::StartPlayout));
    assert!(matches!(clock.next(ClockEvent::Peer(false), &flags), ClockAction::Pull));
}

#[test]
fn a_terminated_device_stops_before_the_next_window() {
    let mut flags = both_ways();
    let mut clock = ClockLoop::new(5);
    flags.apply(Some(AudioControlEvent::Terminate));
    assert!(matches!(clock.next(ClockEvent::NextWindow, &flags), ClockAction::Stop));
    assert_eq!(clock.turn, Turn::Stopped);
    assert_eq!(clock.pacer.next_tick, 5);
}

#[test]
fn each_window_is_pulled_and_pushed_once() {
    let flags = both_ways();
    let mut clock = ClockLoop::new(0);
    let mut now = 0;
    let mut event = ClockEvent::NextWindow;
    let (mut windows, mut pulled, mut pushed, mut reads) = (0, 0, 0, 0);
    while windows < 50 {
        event = match clock.next(event, &flags) {
            ClockAction::Accept => ClockEvent::Peer(windows % 3 == 2),
            ClockAction::Pull => {
                pulled += 1;
                ClockEvent::Playout(vec![windows as i16; 480])
            }
            ClockAction::Write(from) => {
                let left = clock.session.playout.len() - from;
                ClockEvent::Write(WriteOutcome::Wrote(left.min(700)))
            }
            ClockAction::Read => {
                reads += 1;
                ClockEvent::Read(match reads % 4 {
                    0 => ReadOutcome::WouldBlock,
                    _ if reads % 97 == 0 => ReadOutcome::Failed,
                    n => ReadOutcome::Read(vec![n as u8; 321]),
                })
            }
            ClockAction::Push(samples) => {
                assert_eq!(samples.len(), 480);
                pushed += 1;
                ClockEvent::Pushed
            }
            ClockAction::TellTime => {
                now += 2_000_000;
                ClockEvent::Time(now)
            }
            ClockAction::Pause(pause) => {
                now += pause.unwrap_or(0);
                windows += 1;
                ClockEvent::NextWindow
            }
            ClockAction::Stop => panic!("nothing stops the device"),
        };
    }
    assert_eq!((pulled, pushed), (50, 50));
    assert_eq!(now, 50 * WINDOW_NS);
}

/// Runs one window with a peer: what the socket takes of the playout, and what is handed over.
fn window_with_peer(
    clock: &mut ClockLoop,
    accept: bool,
    playout: Vec<i16>,
    takes: usize,
    reads: Vec<Vec<u8>>,
) -> (Vec<u8>, Vec<i16>) {
    let flags = both_ways();
    let mut left = takes;
    let mut reads = reads.into_iter();
    let (mut taken, mut handed) = (vec![], vec![]);
    let mut event = ClockEvent::NextWindow;
    loop {
        event = match clock.next(event, &flags) {
            ClockAction::Accept => ClockEvent::Peer(accept),
            ClockAction::Pull => ClockEvent::Playout(playout.clone()),
            ClockAction::Write(from) => {
                let offered = &clock.session.playout[from..];
                let n = left.min(offered.len()).min(5);
                if n == 0 {
                    ClockEvent::Write(WriteOutcome::WouldBlock)
                } else {
                    taken.extend_from_slice(&offered[..n]);
                    left -= n;
                    ClockEvent::Write(WriteOutcome::Wrote(n))
                }
            }
            ClockAction::Read => ClockEvent::Read(match reads.next() {
                Some(bytes) => ReadOutcome::Read(bytes),
                None => ReadOutcome::WouldBlock,
            }),
            ClockAction::Push(samples) => {
                handed = samples;
                ClockEvent::Pushed
            }
            ClockAction::TellTime => ClockEvent::Time(0),
            ClockAction::Pause(_) => return (taken, handed),
            ClockAction::Stop => panic!("nothing stops the device"),
        };
    }
}

#[test]
fn a_peer_is_sent_and_heard_in_its_own_time_only() {
    let mut clock = ClockLoop::new(0);
    // Pulled before anybody came.
    window_with_peer(&mut clock, false, vec![9; 4], 100, vec![]);
    // The first peer takes a part, sends more than a window, and leaves.
    let (taken, handed) =
        window_with_peer(&mut clock, true, vec![1, 2, 3], 3, vec![vec![7; 1500], vec![]]);
    assert_eq!(taken, vec![1, 0, 2]);
    assert_eq!(handed, vec![0x0707; 480]);
    assert_eq!(clock.session.capture.len(), 540);
    // The second peer starts afresh.
    let (taken, handed) = window_with_peer(&mut clock, true, vec![4, 5], 3, vec![vec![8, 0]]);
    assert_eq!(taken, vec![4, 0, 5]);
    assert_eq!(handed[0], 8);
    assert!(handed[1..].iter().all(|s| *s == 0));
    let (taken, handed) = window_with_peer(&mut clock, true, vec![6], 100, vec![]);
    assert_eq!(taken, vec![0, 6, 0]);
    assert_eq!(handed, vec![0; 480]);
}

#[test]
fn an_overfull_queue_stays_aligned_to_samples() {
    let mut clock = ClockLoop::new(0);
    let (taken, _) = window_with_peer(&mut clock, true, vec![0x0201; 480], 1, vec![]);
    assert_eq!(taken, vec![1]);
    for _ in 0..10 {
        window_with_peer(&mut clock, true, vec![0x0201; 480], 0, vec![]);
    }
    let (taken, _) = window_with_peer(&mut clock, true, vec![0x0201; 480], 100_000, vec![]);
    assert_eq!(taken.len(), 7_679);
    assert!(taken.iter().enumerate().all(|(i, b)| *b == if i % 2 == 0 { 2 } else { 1 }));
}

#[test]
fn every_window_is_served_with_or_without_a_peer() {
    let mut clock = ClockLoop::new(0);
    for window in 0..12i16 {
        // A peer comes in every fourth window, and leaves two windows later.
        let reads = match window % 4 {
            2 => vec![vec![]],
            _ => vec![vec![window as u8, 0]],
        };
        let (_, handed) = window_with_peer(&mut clock, window % 4 == 0, vec![window], 100, reads);
        assert_eq!(handed.len(), 480);
        assert_eq!(handed[0], if window % 4 < 2 { window } else { 0 });
        assert_eq!(clock.turn, Turn::Window);
    }
}
