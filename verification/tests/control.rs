//! Control messages and the auth token.

use signal_call_tunnel::control::validate_token;
use signal_call_tunnel::message::{parse_message, ControlMessage};

// --- parse_message tests ---

#[test]
fn parse_auth() {
    let msg = parse_message(r#"{"type":"auth","token":"secret123"}"#).unwrap();
    match msg {
        ControlMessage::Auth { token } => assert_eq!(token, "secret123"),
        _ => panic!("expected Auth, got {:?}", msg),
    }
}

#[test]
fn parse_create_outgoing_call() {
    let msg = parse_message(
        r#"{"type":"createOutgoingCall","callId":42,"peerId":"abc-def"}"#,
    )
    .unwrap();
    match msg {
        ControlMessage::CreateOutgoingCall { call_id, peer_id } => {
            assert_eq!(call_id, 42);
            assert_eq!(peer_id, "abc-def");
        }
        _ => panic!("expected CreateOutgoingCall, got {:?}", msg),
    }
}

#[test]
fn parse_proceed_with_ice_servers() {
    let json = r#"{
        "type": "proceed",
        "callId": 99,
        "hideIp": true,
        "iceServers": [
            {
                "username": "user1",
                "password": "pass1",
                "urls": ["turn:example.com:3478", "stun:example.com:3478"]
            },
            {
                "username": "user2",
                "password": "pass2",
                "urls": ["turn:other.com:443"]
            }
        ]
    }"#;
    let msg = parse_message(json).unwrap();
    match msg {
        ControlMessage::Proceed {
            call_id,
            ice_servers,
            hide_ip,
        } => {
            assert_eq!(call_id, 99);
            assert!(hide_ip);
            assert_eq!(ice_servers.len(), 2);
            assert_eq!(ice_servers[0].username, "user1");
            assert_eq!(ice_servers[0].password, "pass1");
            assert_eq!(ice_servers[0].urls.len(), 2);
            assert_eq!(ice_servers[0].urls[0], "turn:example.com:3478");
            assert_eq!(ice_servers[1].username, "user2");
            assert_eq!(ice_servers[1].urls.len(), 1);
        }
        _ => panic!("expected Proceed, got {:?}", msg),
    }
}

#[test]
fn parse_proceed_no_ice_servers() {
    let msg = parse_message(r#"{"type":"proceed","callId":1}"#).unwrap();
    match msg {
        ControlMessage::Proceed {
            call_id,
            ice_servers,
            hide_ip,
        } => {
            assert_eq!(call_id, 1);
            assert!(!hide_ip);
            assert!(ice_servers.is_empty());
        }
        _ => panic!("expected Proceed, got {:?}", msg),
    }
}

#[test]
fn parse_received_offer() {
    // "aGVsbG8=" is base64 for "hello"
    let json = r#"{
        "type": "receivedOffer",
        "callId": 100,
        "peerId": "0b949a17-dc53-41b1-9ebc-dea99cb93920",
        "senderDeviceId": 3,
        "opaque": "aGVsbG8=",
        "age": 500,
        "senderIdentityKey": "AQID",
        "receiverIdentityKey": "BAUG"
    }"#;
    let msg = parse_message(json).unwrap();
    match msg {
        ControlMessage::ReceivedOffer {
            call_id,
            peer_id,
            sender_device_id,
            opaque,
            age_ms,
            sender_identity_key,
            receiver_identity_key,
        } => {
            assert_eq!(call_id, 100);
            assert_eq!(peer_id, "0b949a17-dc53-41b1-9ebc-dea99cb93920");
            assert_eq!(sender_device_id, 3);
            assert_eq!(opaque, b"hello");
            assert_eq!(age_ms, 500);
            assert_eq!(sender_identity_key, vec![1, 2, 3]);
            assert_eq!(receiver_identity_key, vec![4, 5, 6]);
        }
        _ => panic!("expected ReceivedOffer, got {:?}", msg),
    }
}

#[test]
fn parse_received_answer() {
    let json = r#"{
        "type": "receivedAnswer",
        "opaque": "AQID",
        "senderDeviceId": 2,
        "senderIdentityKey": "BAUG",
        "receiverIdentityKey": "BwgJ"
    }"#;
    let msg = parse_message(json).unwrap();
    match msg {
        ControlMessage::ReceivedAnswer {
            opaque,
            sender_device_id,
            sender_identity_key,
            receiver_identity_key,
        } => {
            assert_eq!(opaque, vec![1, 2, 3]);
            assert_eq!(sender_device_id, 2);
            assert_eq!(sender_identity_key, vec![4, 5, 6]);
            assert_eq!(receiver_identity_key, vec![7, 8, 9]);
        }
        _ => panic!("expected ReceivedAnswer, got {:?}", msg),
    }
}

#[test]
fn parse_received_ice() {
    // Two base64-encoded candidates
    let json = r#"{"type":"receivedIce","candidates":["AQID","BAUG"]}"#;
    let msg = parse_message(json).unwrap();
    match msg {
        ControlMessage::ReceivedIce { candidates } => {
            assert_eq!(candidates.len(), 2);
            assert_eq!(candidates[0], vec![1, 2, 3]);
            assert_eq!(candidates[1], vec![4, 5, 6]);
        }
        _ => panic!("expected ReceivedIce, got {:?}", msg),
    }
}

#[test]
fn parse_received_ice_empty() {
    let msg = parse_message(r#"{"type":"receivedIce","candidates":[]}"#).unwrap();
    match msg {
        ControlMessage::ReceivedIce { candidates } => {
            assert!(candidates.is_empty());
        }
        _ => panic!("expected ReceivedIce, got {:?}", msg),
    }
}

#[test]
fn parse_accept() {
    let msg = parse_message(r#"{"type":"accept"}"#).unwrap();
    assert!(matches!(msg, ControlMessage::Accept));
}

#[test]
fn parse_hangup() {
    let msg = parse_message(r#"{"type":"hangup"}"#).unwrap();
    assert!(matches!(msg, ControlMessage::Hangup));
}

#[test]
fn parse_unknown_type_fails() {
    let result = parse_message(r#"{"type":"foobar"}"#);
    assert!(result.is_err());
    assert!(result.unwrap_err().message().contains("unknown message type"));
}

#[test]
fn parse_invalid_json_fails() {
    let result = parse_message("not json at all");
    assert!(result.is_err());
}

#[test]
fn parse_missing_type_fails() {
    let result = parse_message(r#"{"callId":1}"#);
    assert!(result.is_err());
}

// --- validate_token tests ---

#[test]
fn validate_token_matching() {
    assert!(validate_token("my-secret-token", "my-secret-token"));
}

#[test]
fn validate_token_mismatch() {
    assert!(!validate_token("wrong-token", "my-secret-token"));
}

#[test]
fn validate_token_different_lengths() {
    assert!(!validate_token("short", "a-much-longer-token"));
}

#[test]
fn validate_token_empty() {
    assert!(validate_token("", ""));
}

#[test]
fn validate_token_one_empty() {
    assert!(!validate_token("", "notempty"));
    assert!(!validate_token("notempty", ""));
}
