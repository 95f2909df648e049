//! The call engine's reports and the lines that carry them.

use signal_call_tunnel::json::read_json;
use signal_call_tunnel::platform::{
    signaling_event, state_event, CallMediaType, CallState, PlatformEvent, SignalingEvent,
    SignalingMessage,
};

fn line_of(message: SignalingMessage) -> String {
    signaling_event(9, message).to_json()
}

#[test]
fn signaling_messages_are_relayed_letter_by_letter() {
    assert_eq!(
        line_of(SignalingMessage::Offer {
            opaque: vec![1, 2, 3],
            call_media_type: CallMediaType::Video,
        }),
        r#"{"type":"sendOffer","callId":9,"opaque":"AQID","callMediaType":"video"}"#
    );
    assert_eq!(
        line_of(SignalingMessage::Answer { opaque: vec![0xff] }),
        r#"{"type":"sendAnswer","callId":9,"opaque":"/w=="}"#
    );
    assert_eq!(
        line_of(SignalingMessage::Ice { candidates: vec![vec![1, 2, 3], vec![], vec![4]] }),
        r#"{"type":"sendIce","callId":9,"candidates":[{"opaque":"AQID"},{"opaque":""},{"opaque":"BA=="}]}"#
    );
    assert_eq!(
        line_of(SignalingMessage::Ice { candidates: vec![] }),
        r#"{"type":"sendIce","callId":9,"candidates":[]}"#
    );
    assert_eq!(line_of(SignalingMessage::Busy), r#"{"type":"sendBusy","callId":9}"#);
}

#[test]
fn hangup_names_are_put_in_lower_case() {
    assert_eq!(
        line_of(SignalingMessage::Hangup { kind_name: "AcceptedOnAnotherDevice".to_string() }),
        r#"{"type":"sendHangup","callId":9,"hangupType":"acceptedonanotherdevice"}"#
    );
    assert_eq!(
        line_of(SignalingMessage::Hangup { kind_name: "NeedPermission".to_string() }),
        r#"{"type":"sendHangup","callId":9,"hangupType":"needpermission"}"#
    );
}

#[test]
fn call_ids_are_written_whole() {
    assert_eq!(
        signaling_event(u64::MAX, SignalingMessage::Busy).to_json(),
        r#"{"type":"sendBusy","callId":18446744073709551615}"#
    );
}

#[test]
fn states_are_reported_by_name() {
    let cases = vec![
        (CallState::Incoming(CallMediaType::Audio), r#""state":"Incoming(Audio)""#),
        (CallState::Incoming(CallMediaType::Video), r#""state":"Incoming(Video)""#),
        (CallState::Outgoing(CallMediaType::Audio), r#""state":"Outgoing(Audio)""#),
        (CallState::Outgoing(CallMediaType::Video), r#""state":"Outgoing(Video)""#),
        (CallState::Ringing, r#""state":"Ringing""#),
        (CallState::Connected, r#""state":"Connected""#),
        (CallState::Connecting, r#""state":"Connecting""#),
        (CallState::Concluded, r#""state":"Concluded""#),
        (
            CallState::Ended("RemoteHangup".to_string()),
            r#""state":"Ended","reason":"RemoteHangup""#,
        ),
        (CallState::Rejected("Busy".to_string()), r#""state":"Rejected","reason":"Busy""#),
    ];
    for (state, expected) in cases {
        assert_eq!(
            state_event(state).to_json(),
            format!(r#"{{"type":"stateChange",{}}}"#, expected)
        );
    }
}

#[test]
fn event_lines_stay_on_one_line_and_read_back() {
    let line = state_event(CallState::Ended("Timeout".to_string())).to_json();
    assert!(!line.contains('\n'));
    let doc = read_json(&line).unwrap();
    assert_eq!(doc.text_member("type"), Some("stateChange"));
    assert_eq!(doc.text_member("state"), Some("Ended"));
    assert_eq!(doc.text_member("reason"), Some("Timeout"));
}

#[test]
fn texts_are_escaped_in_a_line() {
    let line = state_event(CallState::Ended("a\"b\\c\nd\u{1f}\u{7f}\u{2028}".to_string())).to_json();
    assert_eq!(
        line,
        concat_line(&[
            r#"{"type":"stateChange","state":"Ended","reason":"a\"b\\c\u000ad\u001f"#,
            "\u{7f}\u{2028}\"}",
        ])
    );
    let doc = read_json(&line).unwrap();
    assert_eq!(doc.text_member("reason"), Some("a\"b\\c\nd\u{1f}\u{7f}\u{2028}"));
}

#[test]
fn every_text_reads_back_from_one_line() {
    for code in 0..0x100u32 {
        let text = format!("x{}y", char::from_u32(code).unwrap());
        let state = PlatformEvent::StateChange { state: text.clone(), reason: Some(text.clone()) };
        let line = state.to_json();
        assert!(line.chars().all(|c| c >= ' '));
        let doc = read_json(&line).unwrap();
        assert_eq!(doc.text_member("type"), Some("stateChange"));
        assert_eq!(doc.text_member("state"), Some(text.as_str()));
        assert_eq!(doc.text_member("reason"), Some(text.as_str()));
        let hangup = PlatformEvent::SendSignaling {
            call_id: 9,
            message: SignalingEvent::SendHangup { hangup_type: text.clone() },
        };
        let line = hangup.to_json();
        assert!(!line.contains('\n'));
        let doc = read_json(&line).unwrap();
        assert_eq!(doc.number_member("callId"), Some(9));
        assert_eq!(doc.text_member("hangupType"), Some(text.as_str()));
    }
}

fn concat_line(parts: &[&str]) -> String {
    parts.concat()
}
