//! What the call engine is told to do.

use signal_call_tunnel::call::{
    create_failed_line, device_index, devices_found, proceed_failed_line, CallAction, CallDriver,
};
use signal_call_tunnel::message::{ControlMessage, IceServerConfig};

fn ice(driver: &mut CallDriver) -> (u64, String, u32) {
    match driver.on_message(ControlMessage::ReceivedIce { candidates: vec![vec![1]] }) {
        CallAction::ReceiveIce { call_id, peer_id, candidates, sender_device_id } => {
            assert_eq!(candidates, vec![vec![1]]);
            (call_id, peer_id, sender_device_id)
        }
        other => panic!("expected ReceiveIce, got {:?}", other),
    }
}

#[test]
fn the_peer_is_remote_until_one_is_named() {
    let mut driver = CallDriver::new(42, 3);
    assert_eq!(ice(&mut driver), (42, "remote".to_string(), 1));
    match driver.on_message(ControlMessage::CreateOutgoingCall {
        call_id: 7,
        peer_id: "abc".to_string(),
    }) {
        CallAction::CreateOutgoingCall { call_id, peer_id, local_device_id } => {
            assert_eq!((call_id, peer_id.as_str(), local_device_id), (7, "abc", 3));
        }
        other => panic!("expected CreateOutgoingCall, got {:?}", other),
    }
    assert_eq!(ice(&mut driver), (42, "abc".to_string(), 1));
}

#[test]
fn an_offer_names_the_peer() {
    let mut driver = CallDriver::new(42, 3);
    match driver.on_message(ControlMessage::ReceivedOffer {
        call_id: 8,
        peer_id: "def".to_string(),
        sender_device_id: 2,
        opaque: vec![1],
        age_ms: 500,
        sender_identity_key: vec![2],
        receiver_identity_key: vec![3],
    }) {
        CallAction::ReceiveOffer {
            call_id,
            peer_id,
            opaque,
            age_ms,
            sender_device_id,
            receiver_device_id,
            sender_identity_key,
            receiver_identity_key,
        } => {
            assert_eq!((call_id, peer_id.as_str(), age_ms), (8, "def", 500));
            assert_eq!((sender_device_id, receiver_device_id), (2, 3));
            assert_eq!(opaque, vec![1]);
            assert_eq!(sender_identity_key, vec![2]);
            assert_eq!(receiver_identity_key, vec![3]);
        }
        other => panic!("expected ReceiveOffer, got {:?}", other),
    }
    match driver.on_message(ControlMessage::ReceivedAnswer {
        opaque: vec![4],
        sender_device_id: 5,
        sender_identity_key: vec![6],
        receiver_identity_key: vec![7],
    }) {
        CallAction::ReceiveAnswer { call_id, peer_id, opaque, sender_device_id, .. } => {
            assert_eq!((call_id, peer_id.as_str(), sender_device_id), (42, "def", 5));
            assert_eq!(opaque, vec![4]);
        }
        other => panic!("expected ReceiveAnswer, got {:?}", other),
    }
}

#[test]
fn other_messages_leave_the_peer() {
    let mut driver = CallDriver::new(42, 3);
    driver.on_message(ControlMessage::CreateOutgoingCall { call_id: 1, peer_id: "p".to_string() });
    let auth = ControlMessage::Auth { token: "t".to_string() };
    assert!(matches!(driver.on_message(auth), CallAction::Ignore));
    assert!(matches!(
        driver.on_message(ControlMessage::Accept),
        CallAction::Accept { call_id: 42 }
    ));
    assert!(matches!(driver.on_message(ControlMessage::Hangup), CallAction::Hangup));
    let servers = vec![IceServerConfig {
        username: "u".to_string(),
        password: "p".to_string(),
        urls: vec!["turn:x".to_string()],
    }];
    match driver.on_message(ControlMessage::Proceed {
        call_id: 11,
        ice_servers: servers,
        hide_ip: true,
    }) {
        CallAction::Proceed { call_id, ice_servers, hide_ip } => {
            assert_eq!((call_id, hide_ip), (11, true));
            assert_eq!(ice_servers[0].urls, vec!["turn:x"]);
        }
        other => panic!("expected Proceed, got {:?}", other),
    }
    assert_eq!(ice(&mut driver), (42, "p".to_string(), 1));
}

#[test]
fn failures_are_told_to_the_parent() {
    assert_eq!(
        create_failed_line("no device"),
        r#"{"type":"error","message":"failed to create outgoing call: no device"}"#
    );
    assert_eq!(
        proceed_failed_line("busy"),
        r#"{"type":"error","message":"failed to proceed: busy"}"#
    );
    assert_eq!(
        proceed_failed_line("no \"x\"\n"),
        r#"{"type":"error","message":"failed to proceed: no \"x\"\u000a"}"#
    );
}

#[test]
fn devices_are_found_by_name() {
    let names: Vec<String> =
        vec!["default".to_string(), "mic".to_string(), "mic".to_string(), "".to_string()];
    assert_eq!(device_index(&names, "mic"), Some(1));
    assert_eq!(device_index(&names, "default"), Some(0));
    assert_eq!(device_index(&names, ""), Some(3));
    assert_eq!(device_index(&names, "Mic"), None);
    assert_eq!(device_index(&vec![], "mic"), None);
    let mut many = vec![String::new(); 65_537];
    many.push("last".to_string());
    assert_eq!(device_index(&many, "last"), Some(1));
}

#[test]
fn both_lists_of_devices_must_be_there() {
    assert!(devices_found(Some(1), Some(2)));
    assert!(!devices_found(Some(0), Some(2)));
    assert!(!devices_found(Some(1), Some(0)));
    assert!(!devices_found(None, Some(1)));
    assert!(!devices_found(Some(1), None));
}
