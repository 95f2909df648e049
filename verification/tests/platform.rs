//! Event lines.

use base64::engine::general_purpose::STANDARD;
use base64::Engine;
use serde_json::Value;
use signal_call_tunnel::platform::{CallMediaType, PlatformEvent, SignalingEvent};

fn parse_event_json(event: &PlatformEvent) -> Value {
    serde_json::from_str(&event.to_json()).expect("event JSON should be valid")
}

#[test]
fn send_offer_json() {
    let event = PlatformEvent::SendSignaling {
        call_id: 42u64,
        message: SignalingEvent::SendOffer {
            opaque: vec![1, 2, 3],
            call_media_type: CallMediaType::Audio,
        },
    };
    let json = parse_event_json(&event);
    assert_eq!(json["type"], "sendOffer");
    assert_eq!(json["callId"], 42);
    assert_eq!(json["callMediaType"], "audio");
    // Verify opaque is valid base64 that decodes back
    let opaque_b64 = json["opaque"].as_str().unwrap();
    let decoded = STANDARD.decode(opaque_b64).unwrap();
    assert_eq!(decoded, vec![1, 2, 3]);
}

#[test]
fn send_offer_video_json() {
    let event = PlatformEvent::SendSignaling {
        call_id: 1u64,
        message: SignalingEvent::SendOffer {
            opaque: vec![],
            call_media_type: CallMediaType::Video,
        },
    };
    let json = parse_event_json(&event);
    assert_eq!(json["callMediaType"], "video");
}

#[test]
fn send_answer_json() {
    let event = PlatformEvent::SendSignaling {
        call_id: 99u64,
        message: SignalingEvent::SendAnswer {
            opaque: vec![4, 5, 6],
        },
    };
    let json = parse_event_json(&event);
    assert_eq!(json["type"], "sendAnswer");
    assert_eq!(json["callId"], 99);
    let decoded = STANDARD.decode(json["opaque"].as_str().unwrap()).unwrap();
    assert_eq!(decoded, vec![4, 5, 6]);
}

#[test]
fn send_ice_json() {
    let event = PlatformEvent::SendSignaling {
        call_id: 7u64,
        message: SignalingEvent::SendIce {
            candidates: vec![vec![10, 20], vec![30, 40]],
        },
    };
    let json = parse_event_json(&event);
    assert_eq!(json["type"], "sendIce");
    assert_eq!(json["callId"], 7);
    let candidates = json["candidates"].as_array().unwrap();
    assert_eq!(candidates.len(), 2);
    let c0 = STANDARD
        .decode(candidates[0]["opaque"].as_str().unwrap())
        .unwrap();
    assert_eq!(c0, vec![10, 20]);
    let c1 = STANDARD
        .decode(candidates[1]["opaque"].as_str().unwrap())
        .unwrap();
    assert_eq!(c1, vec![30, 40]);
}

#[test]
fn send_ice_empty_candidates_json() {
    let event = PlatformEvent::SendSignaling {
        call_id: 1u64,
        message: SignalingEvent::SendIce {
            candidates: vec![],
        },
    };
    let json = parse_event_json(&event);
    assert_eq!(json["candidates"].as_array().unwrap().len(), 0);
}

#[test]
fn send_hangup_json() {
    let event = PlatformEvent::SendSignaling {
        call_id: 50u64,
        message: SignalingEvent::SendHangup {
            hangup_type: "normal".to_string(),
        },
    };
    let json = parse_event_json(&event);
    assert_eq!(json["type"], "sendHangup");
    assert_eq!(json["callId"], 50);
    assert_eq!(json["hangupType"], "normal");
}

#[test]
fn send_busy_json() {
    let event = PlatformEvent::SendSignaling {
        call_id: 8u64,
        message: SignalingEvent::SendBusy,
    };
    let json = parse_event_json(&event);
    assert_eq!(json["type"], "sendBusy");
    assert_eq!(json["callId"], 8);
}

#[test]
fn state_change_with_reason_json() {
    let event = PlatformEvent::StateChange {
        state: "Ended".to_string(),
        reason: Some("Timeout".to_string()),
    };
    let json = parse_event_json(&event);
    assert_eq!(json["type"], "stateChange");
    assert_eq!(json["state"], "Ended");
    assert_eq!(json["reason"], "Timeout");
}

#[test]
fn state_change_without_reason_json() {
    let event = PlatformEvent::StateChange {
        state: "Connected".to_string(),
        reason: None,
    };
    let json = parse_event_json(&event);
    assert_eq!(json["type"], "stateChange");
    assert_eq!(json["state"], "Connected");
    assert!(json.get("reason").is_none());
}

// --- Round-trip tests: platform event -> JSON -> parse as control message ---

#[test]
fn round_trip_offer() {
    let opaque = vec![0xDE, 0xAD, 0xBE, 0xEF];
    let event = PlatformEvent::SendSignaling {
        call_id: 123u64,
        message: SignalingEvent::SendOffer {
            opaque: opaque.clone(),
            call_media_type: CallMediaType::Audio,
        },
    };
    let json_str = event.to_json();
    // The parent would receive this JSON and could extract the opaque
    let parsed: Value = serde_json::from_str(&json_str).unwrap();
    let decoded = STANDARD
        .decode(parsed["opaque"].as_str().unwrap())
        .unwrap();
    assert_eq!(decoded, opaque);
}

#[test]
fn round_trip_ice() {
    let candidates = vec![vec![1, 2, 3], vec![4, 5, 6, 7, 8]];
    let event = PlatformEvent::SendSignaling {
        call_id: 456u64,
        message: SignalingEvent::SendIce {
            candidates: candidates.clone(),
        },
    };
    let json_str = event.to_json();
    let parsed: Value = serde_json::from_str(&json_str).unwrap();
    let arr = parsed["candidates"].as_array().unwrap();
    assert_eq!(arr.len(), 2);
    for (i, c) in arr.iter().enumerate() {
        let decoded = STANDARD.decode(c["opaque"].as_str().unwrap()).unwrap();
        assert_eq!(decoded, candidates[i]);
    }
}
