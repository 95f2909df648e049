//! What control messages come to beyond the ordinary ones.

use signal_call_tunnel::escape::escaped_text;
use signal_call_tunnel::json::Json;
use signal_call_tunnel::message::{message_from_json, parse_message, ControlMessage, MessageError};

fn shown(line: &str) -> String {
    format!("{:?}", parse_message(line).unwrap())
}

#[test]
fn missing_members_take_their_defaults() {
    assert_eq!(shown(r#"{"type":"auth"}"#), r#"Auth { token: "" }"#);
    assert_eq!(
        shown(r#"{"type":"createOutgoingCall"}"#),
        r#"CreateOutgoingCall { call_id: 0, peer_id: "" }"#
    );
    assert_eq!(
        shown(r#"{"type":"proceed"}"#),
        "Proceed { call_id: 0, ice_servers: [], hide_ip: false }"
    );
    assert_eq!(
        shown(r#"{"type":"receivedOffer"}"#),
        "ReceivedOffer { call_id: 0, peer_id: \"remote\", sender_device_id: 1, opaque: [], \
         age_ms: 0, sender_identity_key: [], receiver_identity_key: [] }"
    );
    assert_eq!(
        shown(r#"{"type":"receivedAnswer"}"#),
        "ReceivedAnswer { opaque: [], sender_device_id: 1, sender_identity_key: [], \
         receiver_identity_key: [] }"
    );
    assert_eq!(shown(r#"{"type":"receivedIce"}"#), "ReceivedIce { candidates: [] }");
}

#[test]
fn members_of_the_wrong_type_take_their_defaults() {
    assert_eq!(shown(r#"{"type":"auth","token":7}"#), r#"Auth { token: "" }"#);
    assert_eq!(
        shown(r#"{"type":"createOutgoingCall","callId":"1","peerId":null}"#),
        r#"CreateOutgoingCall { call_id: 0, peer_id: "" }"#
    );
    assert_eq!(
        shown(r#"{"type":"createOutgoingCall","callId":-1,"peerId":"p"}"#),
        r#"CreateOutgoingCall { call_id: 0, peer_id: "p" }"#
    );
    assert_eq!(
        shown(r#"{"type":"proceed","callId":1.5,"hideIp":1,"iceServers":{}}"#),
        "Proceed { call_id: 0, ice_servers: [], hide_ip: false }"
    );
    assert_eq!(
        shown(r#"{"type":"receivedIce","candidates":"AQID"}"#),
        "ReceivedIce { candidates: [] }"
    );
}

#[test]
fn relay_servers_are_read_leniently() {
    let line = r#"{"type":"proceed","callId":18446744073709551615,"hideIp":true,
        "iceServers":[{"urls":["a",1,"b",null]},"odd",{"username":"u","password":"p","urls":"c"}]}"#;
    match parse_message(line).unwrap() {
        ControlMessage::Proceed { call_id, ice_servers, hide_ip } => {
            assert_eq!(call_id, u64::MAX);
            assert!(hide_ip);
            assert_eq!(ice_servers.len(), 3);
            assert_eq!(ice_servers[0].username, "");
            assert_eq!(ice_servers[0].urls, vec!["a", "b"]);
            assert_eq!(ice_servers[1].password, "");
            assert!(ice_servers[1].urls.is_empty());
            assert_eq!(ice_servers[2].username, "u");
            assert_eq!(ice_servers[2].password, "p");
            assert!(ice_servers[2].urls.is_empty());
        }
        other => panic!("expected Proceed, got {:?}", other),
    }
}

#[test]
fn device_ids_keep_their_low_bits() {
    match parse_message(r#"{"type":"receivedAnswer","senderDeviceId":4294967301}"#).unwrap() {
        ControlMessage::ReceivedAnswer { sender_device_id, .. } => assert_eq!(sender_device_id, 5),
        other => panic!("expected ReceivedAnswer, got {:?}", other),
    }
}

#[test]
fn payloads_that_are_no_base64_are_dropped() {
    match parse_message(r#"{"type":"receivedAnswer","opaque":"AQI","senderIdentityKey":"AQID"}"#)
        .unwrap()
    {
        ControlMessage::ReceivedAnswer { opaque, sender_identity_key, .. } => {
            assert!(opaque.is_empty());
            assert_eq!(sender_identity_key, vec![1, 2, 3]);
        }
        other => panic!("expected ReceivedAnswer, got {:?}", other),
    }
    let line = r#"{"type":"receivedIce","candidates":["AQID","!",7,{"opaque":"AQID"},"","BAUG"]}"#;
    match parse_message(line).unwrap() {
        ControlMessage::ReceivedIce { candidates } => {
            assert_eq!(candidates, vec![vec![1, 2, 3], vec![], vec![4, 5, 6]]);
        }
        other => panic!("expected ReceivedIce, got {:?}", other),
    }
}

#[test]
fn errors_say_what_is_wrong() {
    assert!(matches!(parse_message("{"), Err(MessageError::InvalidJson)));
    assert_eq!(parse_message("{").unwrap_err().message(), "invalid JSON");
    match parse_message(r#"{"type":"Auth"}"#) {
        Err(error) => assert_eq!(error.message(), "unknown message type: Auth"),
        other => panic!("expected an error, got {:?}", other),
    }
    for line in ["7", "[]", "null", r#""auth""#, r#"{"type":["auth"]}"#, "{}"] {
        match parse_message(line) {
            Err(MessageError::UnknownType(kind)) => assert_eq!(kind, ""),
            other => panic!("expected an unknown type, got {:?}", other),
        }
    }
}

#[test]
fn messages_are_made_of_trees() {
    let doc = Json::Object(vec![
        ("type".to_string(), Json::Text("auth".to_string())),
        ("token".to_string(), Json::Text("t".to_string())),
    ]);
    assert_eq!(format!("{:?}", message_from_json(&doc).unwrap()), r#"Auth { token: "t" }"#);
}

#[test]
fn compact_lines_are_understood_as_meant() {
    let line = concat_line(&[
        r#"{"type":"receivedOffer","callId":100,"peerId":"p","senderDeviceId":3,"#,
        r#""opaque":"aGVsbG8=","age":500,"senderIdentityKey":"AQID","receiverIdentityKey":"BAUG"}"#,
    ]);
    assert_eq!(
        shown(&line),
        "ReceivedOffer { call_id: 100, peer_id: \"p\", sender_device_id: 3, \
         opaque: [104, 101, 108, 108, 111], age_ms: 500, sender_identity_key: [1, 2, 3], \
         receiver_identity_key: [4, 5, 6] }"
    );
}

#[test]
fn escaped_texts_are_understood_as_meant() {
    let password = "p\"a\\s\ns\u{1}";
    let line = format!(
        r#"{{"type":"proceed","callId":1,"hideIp":false,"iceServers":[{{"username":"u","password":"{}","urls":[]}}]}}"#,
        escaped_text(password)
    );
    match parse_message(&line).unwrap() {
        ControlMessage::Proceed { ice_servers, .. } => {
            assert_eq!(ice_servers[0].password, password);
        }
        other => panic!("expected Proceed, got {:?}", other),
    }
}

fn concat_line(parts: &[&str]) -> String {
    parts.concat()
}
