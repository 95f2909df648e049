//! Queues and the control channel.

use signal_call_tunnel::channel::{Channel, RecvError};
use signal_call_tunnel::control::{
    error_line, ready_line, start_control_channel, validate_token, ControlChannel, ControlWriter,
    LineOutcome,
};
use signal_call_tunnel::json::read_json;
use signal_call_tunnel::message::{parse_message, ControlMessage};
use signal_call_tunnel::platform::PlatformEvent;

const AUTH: &str = r#"{"type":"auth","token":"secret"}"#;

fn channel() -> ControlChannel {
    start_control_channel("secret", "mic", "speaker")
}

#[test]
fn queues_keep_the_order() {
    let mut queue: Channel<u64> = Channel::new();
    assert_eq!(queue.try_recv(), Err(RecvError::Empty));
    assert_eq!(queue.send(1), Ok(()));
    assert_eq!(queue.send(2), Ok(()));
    assert_eq!(queue.try_recv(), Ok(1));
    assert_eq!(queue.send(3), Ok(()));
    assert_eq!(queue.try_recv(), Ok(2));
    assert_eq!(queue.try_recv(), Ok(3));
    assert_eq!(queue.try_recv(), Err(RecvError::Empty));
}

#[test]
fn what_was_sent_outlives_the_sender() {
    let mut queue: Channel<u64> = Channel::new();
    assert_eq!(queue.send(1), Ok(()));
    queue.close_sender();
    assert_eq!(queue.try_recv(), Ok(1));
    assert_eq!(queue.try_recv(), Err(RecvError::Disconnected));
}

#[test]
fn nothing_is_queued_without_a_receiver() {
    let mut queue: Channel<u64> = Channel::new();
    assert_eq!(queue.send(1), Ok(()));
    queue.close_receiver();
    assert_eq!(queue.send(2), Err(2));
    assert_eq!(queue.try_recv(), Err(RecvError::Empty));
}

#[test]
fn tokens_are_compared_as_bytes() {
    assert!(validate_token("t\u{f6}ken", "t\u{f6}ken"));
    assert!(!validate_token("t\u{f6}ken", "t\u{f5}ken"));
    assert!(!validate_token("\u{e9}", "e\u{301}"));
    assert!(!validate_token("Secret", "secret"));
}

#[test]
fn the_ready_line_comes_before_all_others() {
    let mut channel = channel();
    assert!(channel.writer.send_line("later"));
    assert!(channel.writer.send_event(&PlatformEvent::StateChange {
        state: "Ringing".to_string(),
        reason: None,
    }));
    assert_eq!(
        channel.writer.next_line().unwrap(),
        r#"{"type":"ready","inputDeviceName":"mic","outputDeviceName":"speaker"}"#
    );
    assert_eq!(channel.writer.next_line().unwrap(), "later");
    assert_eq!(
        channel.writer.next_line().unwrap(),
        r#"{"type":"stateChange","state":"Ringing"}"#
    );
    assert_eq!(channel.writer.next_line(), Err(RecvError::Empty));
}

#[test]
fn lines_are_lost_once_nobody_writes_them() {
    let mut writer = ControlWriter::new();
    assert!(writer.send_line("a"));
    writer.close();
    assert!(!writer.send_line("b"));
    assert!(!writer.send_event(&PlatformEvent::StateChange {
        state: "Ended".to_string(),
        reason: Some("Timeout".to_string()),
    }));
    assert_eq!(writer.next_line(), Err(RecvError::Empty));
}

#[test]
fn ready_and_error_lines_read_back() {
    let ready = read_json(&ready_line("signal_input_7", "signal_output_7")).unwrap();
    assert_eq!(ready.text_member("type"), Some("ready"));
    assert_eq!(ready.text_member("inputDeviceName"), Some("signal_input_7"));
    assert_eq!(ready.text_member("outputDeviceName"), Some("signal_output_7"));
    let line = error_line("failed to proceed: timeout");
    assert_eq!(line, r#"{"type":"error","message":"failed to proceed: timeout"}"#);
    let error = read_json(&line).unwrap();
    assert_eq!(error.text_member("message"), Some("failed to proceed: timeout"));
}

#[test]
fn names_and_messages_are_escaped() {
    let odd = "in\n\"put\"\\";
    let mut channel = start_control_channel("secret", odd, "\u{0}");
    let line = channel.writer.next_line().unwrap();
    assert_eq!(
        line,
        r#"{"type":"ready","inputDeviceName":"in\u000a\"put\"\\","outputDeviceName":"\u0000"}"#
    );
    let ready = read_json(&line).unwrap();
    assert_eq!(ready.text_member("inputDeviceName"), Some(odd));
    assert_eq!(ready.text_member("outputDeviceName"), Some("\u{0}"));
    let line = error_line(r#"a "b""#);
    assert_eq!(line, r#"{"type":"error","message":"a \"b\""}"#);
    assert_eq!(read_json(&line).unwrap().text_member("message"), Some(r#"a "b""#));
    assert_eq!(
        read_json(&error_line(odd)).unwrap().text_member("message"),
        Some(odd)
    );
}

#[test]
fn messages_are_delivered_in_order_after_auth() {
    let mut channel = channel();
    assert!(matches!(channel.receive_line(" \t"), LineOutcome::Blank));
    assert!(matches!(channel.receive_line("nonsense"), LineOutcome::Unparsable(_)));
    assert!(matches!(channel.receive_line(r#"{"type":"odd"}"#), LineOutcome::Unparsable(_)));
    assert!(!channel.authenticated);
    let outcome = channel.receive_line(AUTH);
    assert!(matches!(outcome, LineOutcome::Authenticated));
    assert!(outcome.keeps_reading());
    assert!(matches!(channel.next_message(), Err(RecvError::Empty)));

    assert!(matches!(channel.receive_line(r#"{"type":"accept"}"#), LineOutcome::Delivered));
    let outcome = channel.receive_line("{");
    assert!(outcome.keeps_reading());
    assert!(matches!(outcome, LineOutcome::Unparsable(_)));
    // A second auth message is a message like any other.
    assert!(matches!(
        channel.receive_line(r#"{"type":"auth","token":"x"}"#),
        LineOutcome::Delivered
    ));
    assert!(matches!(channel.receive_line(r#"{"type":"hangup"}"#), LineOutcome::Delivered));
    assert!(matches!(channel.next_message(), Ok(ControlMessage::Accept)));
    assert!(matches!(channel.next_message(), Ok(ControlMessage::Auth { .. })));
    assert!(matches!(channel.next_message(), Ok(ControlMessage::Hangup)));
    assert!(matches!(channel.next_message(), Err(RecvError::Empty)));
    channel.end_reading();
    assert!(matches!(channel.next_message(), Err(RecvError::Disconnected)));
}

#[test]
fn a_wrong_token_ends_the_channel() {
    let mut channel = channel();
    let outcome = channel.receive_line(r#"{"type":"auth","token":"secreT"}"#);
    assert!(matches!(outcome, LineOutcome::AuthFailed));
    assert!(!outcome.keeps_reading());
    assert!(!channel.msg_receiver.sender_open);
    assert!(!channel.authenticated);
    assert!(matches!(channel.next_message(), Err(RecvError::Disconnected)));
}

#[test]
fn a_first_message_other_than_auth_ends_the_channel() {
    let mut channel = channel();
    let outcome = channel.receive_line(r#"{"type":"accept"}"#);
    assert!(matches!(outcome, LineOutcome::AuthMissing));
    assert!(!outcome.keeps_reading());
    assert!(matches!(channel.next_message(), Err(RecvError::Disconnected)));
}

#[test]
fn reading_ends_once_nobody_takes_messages() {
    let mut channel = channel();
    assert!(matches!(channel.receive_parsed(parse_message(AUTH)), LineOutcome::Authenticated));
    channel.msg_receiver.close_receiver();
    let outcome = channel.receive_line(r#"{"type":"accept"}"#);
    assert!(matches!(outcome, LineOutcome::ReceiverGone));
    assert!(!outcome.keeps_reading());
    assert!(!channel.msg_receiver.sender_open);
}

#[test]
fn written_messages_are_delivered_as_meant() {
    let mut channel = channel();
    let lines = [
        AUTH,
        r#"{"type":"createOutgoingCall","callId":42,"peerId":"abc-def"}"#,
        r#"{"type":"receivedIce","candidates":["AQID","BAUG"]}"#,
        r#"{"type":"accept"}"#,
    ];
    for line in lines {
        assert!(channel.receive_line(line).keeps_reading());
    }
    match channel.next_message() {
        Ok(ControlMessage::CreateOutgoingCall { call_id, peer_id }) => {
            assert_eq!((call_id, peer_id.as_str()), (42, "abc-def"));
        }
        other => panic!("expected CreateOutgoingCall, got {:?}", other),
    }
    match channel.next_message() {
        Ok(ControlMessage::ReceivedIce { candidates }) => {
            assert_eq!(candidates, vec![vec![1, 2, 3], vec![4, 5, 6]]);
        }
        other => panic!("expected ReceivedIce, got {:?}", other),
    }
    assert!(matches!(channel.next_message(), Ok(ControlMessage::Accept)));
    assert!(matches!(channel.next_message(), Err(RecvError::Empty)));
}

#[test]
fn messages_are_received_while_lines_come_in() {
    let mut channel = channel();
    assert!(matches!(channel.next_message(), Err(RecvError::Empty)));
    channel.receive_line(AUTH);
    assert!(matches!(channel.next_message(), Err(RecvError::Empty)));
    channel.receive_line(r#"{"type":"createOutgoingCall","callId":1,"peerId":"p"}"#);
    channel.receive_line(r#"{"type":"accept"}"#);
    assert!(matches!(
        channel.next_message(),
        Ok(ControlMessage::CreateOutgoingCall { call_id: 1, .. })
    ));
    channel.receive_line("no message");
    channel.receive_line(r#"{"type":"hangup"}"#);
    assert!(matches!(channel.next_message(), Ok(ControlMessage::Accept)));
    assert!(matches!(channel.next_message(), Ok(ControlMessage::Hangup)));
    assert!(matches!(channel.next_message(), Err(RecvError::Empty)));
}
