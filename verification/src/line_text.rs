//! The lines for the parent process, letter by letter.

use crate::control::{error_doc, ready_doc};
use crate::document::{comma_separated, Doc};
use crate::escape::{escaped, law_plain_text_is_its_own_escape};
use crate::payload::{base64_text, lemma_payload_text};
use crate::platform::{
    candidate_doc, event_doc, media_type_name, CallMediaType, PlatformEventView,
    SignalingEventView,
};
use crate::text::decimal;
use vstd::prelude::*;

verus! {

/// The line that carries an event, letter by letter.
pub open spec fn event_line(event: PlatformEventView) -> Seq<char> {
    match event {
        PlatformEventView::SendSignaling { call_id, message } => {
            let id = decimal(call_id as nat);
            match message {
                SignalingEventView::SendOffer { opaque, call_media_type } =>
                    "{\"type\":\"sendOffer\",\"callId\":"@ + id + ",\"opaque\":\""@ + base64_text(
                        opaque,
                    ) + "\",\"callMediaType\":\""@ + media_type_name(call_media_type) + "\"}"@,
                SignalingEventView::SendAnswer { opaque } =>
                    "{\"type\":\"sendAnswer\",\"callId\":"@ + id + ",\"opaque\":\""@ + base64_text(
                        opaque,
                    ) + "\"}"@,
                SignalingEventView::SendIce { candidates } =>
                    "{\"type\":\"sendIce\",\"callId\":"@ + id + ",\"candidates\":["@
                        + comma_separated(
                        candidates.map_values(
                            |c: Seq<u8>| "{\"opaque\":\""@ + base64_text(c) + "\"}"@,
                        ),
                    ) + "]}"@,
                SignalingEventView::SendHangup { hangup_type } =>
                    "{\"type\":\"sendHangup\",\"callId\":"@ + id + ",\"hangupType\":\""@
                        + escaped(hangup_type) + "\"}"@,
                SignalingEventView::SendBusy => "{\"type\":\"sendBusy\",\"callId\":"@ + id + "}"@,
            }
        },
        PlatformEventView::StateChange { state, reason } => match reason {
            Some(reason) => "{\"type\":\"stateChange\",\"state\":\""@ + escaped(state)
                + "\",\"reason\":\""@ + escaped(reason) + "\"}"@,
            None => "{\"type\":\"stateChange\",\"state\":\""@ + escaped(state) + "\"}"@,
        },
    }
}

/// Joining texts is associative; the left-nested form is the normal one.
broadcast proof fn lemma_concat_to_left(a: Seq<char>, b: Seq<char>, c: Seq<char>)
    ensures
        #[trigger] (a + (b + c)) == (a + b) + c,
{
    assert(a + (b + c) =~= (a + b) + c);
}

/// The text of a member, part by part.
proof fn lemma_member_text(members: Seq<(Seq<char>, Doc)>, i: int)
    requires
        0 <= i < members.len(),
    ensures
        Doc::member_texts(members)[i] == seq!['"'] + members[i].0 + seq!['"'] + seq![':']
            + members[i].1.text(),
{
}

/// The text of a record with one to four members, part by part.
proof fn lemma_short_record_text(members: Seq<(Seq<char>, Doc)>)
    requires
        1 <= members.len() <= 4,
    ensures
        ({
            let m = Doc::member_texts(members);
            Doc::Record(members).text() == if members.len() == 1 {
                seq!['{'] + m[0] + seq!['}']
            } else if members.len() == 2 {
                seq!['{'] + (m[0] + seq![','] + m[1]) + seq!['}']
            } else if members.len() == 3 {
                seq!['{'] + (m[0] + seq![','] + m[1] + seq![','] + m[2]) + seq!['}']
            } else {
                seq!['{'] + (m[0] + seq![','] + m[1] + seq![','] + m[2] + seq![','] + m[3])
                    + seq!['}']
            }
        }),
{
    let m = Doc::member_texts(members);
    assert(m.len() == members.len());
    assert(comma_separated(m.take(1)) == m[0]);
    if members.len() >= 2 {
        assert(m.take(2).drop_last() =~= m.take(1));
        assert(comma_separated(m.take(2)) == m[0] + seq![','] + m[1]);
    }
    if members.len() >= 3 {
        assert(m.take(3).drop_last() =~= m.take(2));
        assert(comma_separated(m.take(3)) == m[0] + seq![','] + m[1] + seq![','] + m[2]);
    }
    if members.len() >= 4 {
        assert(m.take(4).drop_last() =~= m.take(3));
        assert(comma_separated(m.take(4)) == m[0] + seq![','] + m[1] + seq![','] + m[2] + seq![',']
            + m[3]);
    }
    assert(m.take(m.len() as int) =~= m);
}

proof fn lemma_literal_offer_front()
    ensures
        "{\"type\":\"sendOffer\",\"callId\":"@ == seq!['{'] + seq!['"'] + "type"@ + seq!['"']
            + seq![':'] + seq!['"'] + "sendOffer"@ + seq!['"'] + seq![','] + seq!['"'] + "callId"@
            + seq!['"'] + seq![':'],
{
    reveal_strlit("{\"type\":\"sendOffer\",\"callId\":");
    reveal_strlit("type");
    reveal_strlit("sendOffer");
    reveal_strlit("callId");
    assert("{\"type\":\"sendOffer\",\"callId\":"@ =~= seq!['{'] + seq!['"'] + "type"@ + seq!['"']
        + seq![':'] + seq!['"'] + "sendOffer"@ + seq!['"'] + seq![','] + seq!['"'] + "callId"@
        + seq!['"'] + seq![':']);
}

proof fn lemma_literal_answer_front()
    ensures
        "{\"type\":\"sendAnswer\",\"callId\":"@ == seq!['{'] + seq!['"'] + "type"@ + seq!['"']
            + seq![':'] + seq!['"'] + "sendAnswer"@ + seq!['"'] + seq![','] + seq!['"'] + "callId"@
            + seq!['"'] + seq![':'],
{
    reveal_strlit("{\"type\":\"sendAnswer\",\"callId\":");
    reveal_strlit("type");
    reveal_strlit("sendAnswer");
    reveal_strlit("callId");
    assert("{\"type\":\"sendAnswer\",\"callId\":"@ =~= seq!['{'] + seq!['"'] + "type"@ + seq!['"']
        + seq![':'] + seq!['"'] + "sendAnswer"@ + seq!['"'] + seq![','] + seq!['"'] + "callId"@
        + seq!['"'] + seq![':']);
}

proof fn lemma_literal_ice_front()
    ensures
        "{\"type\":\"sendIce\",\"callId\":"@ == seq!['{'] + seq!['"'] + "type"@ + seq!['"']
            + seq![':'] + seq!['"'] + "sendIce"@ + seq!['"'] + seq![','] + seq!['"'] + "callId"@
            + seq!['"'] + seq![':'],
{
    reveal_strlit("{\"type\":\"sendIce\",\"callId\":");
    reveal_strlit("type");
    reveal_strlit("sendIce");
    reveal_strlit("callId");
    assert("{\"type\":\"sendIce\",\"callId\":"@ =~= seq!['{'] + seq!['"'] + "type"@ + seq!['"']
        + seq![':'] + seq!['"'] + "sendIce"@ + seq!['"'] + seq![','] + seq!['"'] + "callId"@
        + seq!['"'] + seq![':']);
}

proof fn lemma_literal_hangup_front()
    ensures
        "{\"type\":\"sendHangup\",\"callId\":"@ == seq!['{'] + seq!['"'] + "type"@ + seq!['"']
            + seq![':'] + seq!['"'] + "sendHangup"@ + seq!['"'] + seq![','] + seq!['"'] + "callId"@
            + seq!['"'] + seq![':'],
{
    reveal_strlit("{\"type\":\"sendHangup\",\"callId\":");
    reveal_strlit("type");
    reveal_strlit("sendHangup");
    reveal_strlit("callId");
    assert("{\"type\":\"sendHangup\",\"callId\":"@ =~= seq!['{'] + seq!['"'] + "type"@ + seq!['"']
        + seq![':'] + seq!['"'] + "sendHangup"@ + seq!['"'] + seq![','] + seq!['"'] + "callId"@
        + seq!['"'] + seq![':']);
}

proof fn lemma_literal_busy_front()
    ensures
        "{\"type\":\"sendBusy\",\"callId\":"@ == seq!['{'] + seq!['"'] + "type"@ + seq!['"']
            + seq![':'] + seq!['"'] + "sendBusy"@ + seq!['"'] + seq![','] + seq!['"'] + "callId"@
            + seq!['"'] + seq![':'],
{
    reveal_strlit("{\"type\":\"sendBusy\",\"callId\":");
    reveal_strlit("type");
    reveal_strlit("sendBusy");
    reveal_strlit("callId");
    assert("{\"type\":\"sendBusy\",\"callId\":"@ =~= seq!['{'] + seq!['"'] + "type"@ + seq!['"']
        + seq![':'] + seq!['"'] + "sendBusy"@ + seq!['"'] + seq![','] + seq!['"'] + "callId"@
        + seq!['"'] + seq![':']);
}

proof fn lemma_literal_opaque()
    ensures
        ",\"opaque\":\""@ == seq![','] + seq!['"'] + "opaque"@ + seq!['"'] + seq![':'] + seq!['"'],
{
    reveal_strlit(",\"opaque\":\"");
    reveal_strlit("opaque");
    assert(",\"opaque\":\""@ =~= seq![','] + seq!['"'] + "opaque"@ + seq!['"'] + seq![':']
        + seq!['"']);
}

proof fn lemma_literal_media_type()
    ensures
        "\",\"callMediaType\":\""@ == seq!['"'] + seq![','] + seq!['"'] + "callMediaType"@
            + seq!['"'] + seq![':'] + seq!['"'],
{
    reveal_strlit("\",\"callMediaType\":\"");
    reveal_strlit("callMediaType");
    assert("\",\"callMediaType\":\""@ =~= seq!['"'] + seq![','] + seq!['"'] + "callMediaType"@
        + seq!['"'] + seq![':'] + seq!['"']);
}

proof fn lemma_literal_text_end()
    ensures
        "\"}"@ == seq!['"'] + seq!['}'],
{
    reveal_strlit("\"}");
    assert("\"}"@ =~= seq!['"'] + seq!['}']);
}

proof fn lemma_literal_candidates()
    ensures
        ",\"candidates\":["@ == seq![','] + seq!['"'] + "candidates"@ + seq!['"'] + seq![':']
            + seq!['['],
{
    reveal_strlit(",\"candidates\":[");
    reveal_strlit("candidates");
    assert(",\"candidates\":["@ =~= seq![','] + seq!['"'] + "candidates"@ + seq!['"'] + seq![':']
        + seq!['[']);
}

proof fn lemma_literal_list_end()
    ensures
        "]}"@ == seq![']'] + seq!['}'],
{
    reveal_strlit("]}");
    assert("]}"@ =~= seq![']'] + seq!['}']);
}

proof fn lemma_literal_hangup_type()
    ensures
        ",\"hangupType\":\""@ == seq![','] + seq!['"'] + "hangupType"@ + seq!['"'] + seq![':']
            + seq!['"'],
{
    reveal_strlit(",\"hangupType\":\"");
    reveal_strlit("hangupType");
    assert(",\"hangupType\":\""@ =~= seq![','] + seq!['"'] + "hangupType"@ + seq!['"'] + seq![':']
        + seq!['"']);
}

proof fn lemma_literal_record_end()
    ensures
        "}"@ == seq!['}'],
{
    reveal_strlit("}");
    assert("}"@ =~= seq!['}']);
}

proof fn lemma_literal_state_front()
    ensures
        "{\"type\":\"stateChange\",\"state\":\""@ == seq!['{'] + seq!['"'] + "type"@ + seq!['"']
            + seq![':'] + seq!['"'] + "stateChange"@ + seq!['"'] + seq![','] + seq!['"'] + "state"@
            + seq!['"'] + seq![':'] + seq!['"'],
{
    reveal_strlit("{\"type\":\"stateChange\",\"state\":\"");
    reveal_strlit("type");
    reveal_strlit("stateChange");
    reveal_strlit("state");
    assert("{\"type\":\"stateChange\",\"state\":\""@ =~= seq!['{'] + seq!['"'] + "type"@ + seq!['"']
        + seq![':'] + seq!['"'] + "stateChange"@ + seq!['"'] + seq![','] + seq!['"'] + "state"@
        + seq!['"'] + seq![':'] + seq!['"']);
}

proof fn lemma_literal_reason()
    ensures
        "\",\"reason\":\""@ == seq!['"'] + seq![','] + seq!['"'] + "reason"@ + seq!['"'] + seq![':']
            + seq!['"'],
{
    reveal_strlit("\",\"reason\":\"");
    reveal_strlit("reason");
    assert("\",\"reason\":\""@ =~= seq!['"'] + seq![','] + seq!['"'] + "reason"@ + seq!['"']
        + seq![':'] + seq!['"']);
}

proof fn lemma_literal_candidate_front()
    ensures
        "{\"opaque\":\""@ == seq!['{'] + seq!['"'] + "opaque"@ + seq!['"'] + seq![':'] + seq!['"'],
{
    reveal_strlit("{\"opaque\":\"");
    reveal_strlit("opaque");
    assert("{\"opaque\":\""@ =~= seq!['{'] + seq!['"'] + "opaque"@ + seq!['"'] + seq![':']
        + seq!['"']);
}

/// The names that the lines hold need no escapes.
proof fn lemma_names_are_plain()
    ensures
        escaped("sendOffer"@) == "sendOffer"@,
        escaped("sendAnswer"@) == "sendAnswer"@,
        escaped("sendIce"@) == "sendIce"@,
        escaped("sendHangup"@) == "sendHangup"@,
        escaped("sendBusy"@) == "sendBusy"@,
        escaped("stateChange"@) == "stateChange"@,
        escaped("audio"@) == "audio"@,
        escaped("video"@) == "video"@,
        escaped("ready"@) == "ready"@,
        escaped("error"@) == "error"@,
{
    reveal_strlit("sendOffer");
    law_plain_text_is_its_own_escape("sendOffer"@);
    reveal_strlit("sendAnswer");
    law_plain_text_is_its_own_escape("sendAnswer"@);
    reveal_strlit("sendIce");
    law_plain_text_is_its_own_escape("sendIce"@);
    reveal_strlit("sendHangup");
    law_plain_text_is_its_own_escape("sendHangup"@);
    reveal_strlit("sendBusy");
    law_plain_text_is_its_own_escape("sendBusy"@);
    reveal_strlit("stateChange");
    law_plain_text_is_its_own_escape("stateChange"@);
    reveal_strlit("audio");
    law_plain_text_is_its_own_escape("audio"@);
    reveal_strlit("video");
    law_plain_text_is_its_own_escape("video"@);
    reveal_strlit("ready");
    law_plain_text_is_its_own_escape("ready"@);
    reveal_strlit("error");
    law_plain_text_is_its_own_escape("error"@);
}

/// Payloads need no escapes.
proof fn lemma_payload_is_plain(bytes: Seq<u8>)
    ensures
        escaped(base64_text(bytes)) == base64_text(bytes),
{
    lemma_payload_text(bytes);
    law_plain_text_is_its_own_escape(base64_text(bytes));
}

proof fn lemma_candidate_text(candidate: Seq<u8>)
    ensures
        candidate_doc(candidate).text() == "{\"opaque\":\""@ + base64_text(candidate) + "\"}"@,
{
    broadcast use lemma_concat_to_left;

    let members = candidate_doc(candidate)->Record_0;
    lemma_short_record_text(members);
    lemma_member_text(members, 0);
    lemma_payload_is_plain(candidate);
    assert(members[0].1.text() == seq!['"'] + base64_text(candidate) + seq!['"']);
    lemma_literal_candidate_front();
    lemma_literal_text_end();
}

proof fn lemma_offer_line(call_id: u64, opaque: Seq<u8>, call_media_type: CallMediaType)
    ensures
        ({
            let event = PlatformEventView::SendSignaling {
                call_id,
                message: SignalingEventView::SendOffer { opaque, call_media_type },
            };
            event_doc(event).text() == event_line(event)
        }),
{
    broadcast use lemma_concat_to_left;

    let event = PlatformEventView::SendSignaling {
        call_id,
        message: SignalingEventView::SendOffer { opaque, call_media_type },
    };
    let members = event_doc(event)->Record_0;
    lemma_short_record_text(members);
    lemma_member_text(members, 0);
    lemma_member_text(members, 1);
    lemma_member_text(members, 2);
    lemma_member_text(members, 3);
    lemma_names_are_plain();
    assert(members[0].1.text() == seq!['"'] + "sendOffer"@ + seq!['"']);
    assert(members[1].1.text() == decimal(call_id as nat));
    lemma_payload_is_plain(opaque);
    assert(members[2].1.text() == seq!['"'] + base64_text(opaque) + seq!['"']);
    assert(members[3].1.text() == seq!['"'] + media_type_name(call_media_type) + seq!['"']);
    lemma_literal_offer_front();
    lemma_literal_opaque();
    lemma_literal_media_type();
    lemma_literal_text_end();
}

proof fn lemma_answer_line(call_id: u64, opaque: Seq<u8>)
    ensures
        ({
            let event = PlatformEventView::SendSignaling {
                call_id,
                message: SignalingEventView::SendAnswer { opaque },
            };
            event_doc(event).text() == event_line(event)
        }),
{
    broadcast use lemma_concat_to_left;

    let event = PlatformEventView::SendSignaling {
        call_id,
        message: SignalingEventView::SendAnswer { opaque },
    };
    let members = event_doc(event)->Record_0;
    lemma_short_record_text(members);
    lemma_member_text(members, 0);
    lemma_member_text(members, 1);
    lemma_member_text(members, 2);
    lemma_names_are_plain();
    assert(members[0].1.text() == seq!['"'] + "sendAnswer"@ + seq!['"']);
    assert(members[1].1.text() == decimal(call_id as nat));
    lemma_payload_is_plain(opaque);
    assert(members[2].1.text() == seq!['"'] + base64_text(opaque) + seq!['"']);
    lemma_literal_answer_front();
    lemma_literal_opaque();
    lemma_literal_text_end();
}

proof fn lemma_ice_line(call_id: u64, candidates: Seq<Seq<u8>>)
    ensures
        ({
            let event = PlatformEventView::SendSignaling {
                call_id,
                message: SignalingEventView::SendIce { candidates },
            };
            event_doc(event).text() == event_line(event)
        }),
{
    broadcast use lemma_concat_to_left;

    let event = PlatformEventView::SendSignaling {
        call_id,
        message: SignalingEventView::SendIce { candidates },
    };
    let members = event_doc(event)->Record_0;
    lemma_short_record_text(members);
    lemma_member_text(members, 0);
    lemma_member_text(members, 1);
    lemma_member_text(members, 2);
    lemma_names_are_plain();
    assert(members[0].1.text() == seq!['"'] + "sendIce"@ + seq!['"']);
    assert(members[1].1.text() == decimal(call_id as nat));
    lemma_literal_ice_front();
    lemma_literal_candidates();
    lemma_literal_list_end();
    let docs = members[2].1->List_0;
    let texts = candidates.map_values(|c: Seq<u8>| "{\"opaque\":\""@ + base64_text(c) + "\"}"@);
    assert forall|i: int| 0 <= i < texts.len() implies texts[i] == Doc::item_texts(docs)[i] by {
        lemma_candidate_text(candidates[i]);
        assert(docs[i] == candidate_doc(candidates[i]));
    }
    assert(Doc::item_texts(docs) =~= texts);
    assert(members[2].1.text() == seq!['['] + comma_separated(texts) + seq![']']);
}

proof fn lemma_hangup_line(call_id: u64, hangup_type: Seq<char>)
    ensures
        ({
            let event = PlatformEventView::SendSignaling {
                call_id,
                message: SignalingEventView::SendHangup { hangup_type },
            };
            event_doc(event).text() == event_line(event)
        }),
{
    broadcast use lemma_concat_to_left;

    let event = PlatformEventView::SendSignaling {
        call_id,
        message: SignalingEventView::SendHangup { hangup_type },
    };
    let members = event_doc(event)->Record_0;
    lemma_short_record_text(members);
    lemma_member_text(members, 0);
    lemma_member_text(members, 1);
    lemma_member_text(members, 2);
    lemma_names_are_plain();
    assert(members[0].1.text() == seq!['"'] + "sendHangup"@ + seq!['"']);
    assert(members[1].1.text() == decimal(call_id as nat));
    assert(members[2].1.text() == seq!['"'] + escaped(hangup_type) + seq!['"']);
    lemma_literal_hangup_front();
    lemma_literal_hangup_type();
    lemma_literal_text_end();
}

proof fn lemma_busy_line(call_id: u64)
    ensures
        ({
            let event = PlatformEventView::SendSignaling {
                call_id,
                message: SignalingEventView::SendBusy,
            };
            event_doc(event).text() == event_line(event)
        }),
{
    broadcast use lemma_concat_to_left;

    let event = PlatformEventView::SendSignaling { call_id, message: SignalingEventView::SendBusy };
    let members = event_doc(event)->Record_0;
    lemma_short_record_text(members);
    lemma_member_text(members, 0);
    lemma_member_text(members, 1);
    lemma_names_are_plain();
    assert(members[0].1.text() == seq!['"'] + "sendBusy"@ + seq!['"']);
    assert(members[1].1.text() == decimal(call_id as nat));
    lemma_literal_busy_front();
    lemma_literal_record_end();
}

proof fn lemma_state_line(state: Seq<char>)
    ensures
        ({
            let event = PlatformEventView::StateChange { state, reason: None };
            event_doc(event).text() == event_line(event)
        }),
{
    broadcast use lemma_concat_to_left;

    let event = PlatformEventView::StateChange { state, reason: None };
    let members = event_doc(event)->Record_0;
    lemma_short_record_text(members);
    lemma_member_text(members, 0);
    lemma_member_text(members, 1);
    lemma_names_are_plain();
    assert(members[0].1.text() == seq!['"'] + "stateChange"@ + seq!['"']);
    assert(members[1].1.text() == seq!['"'] + escaped(state) + seq!['"']);
    lemma_literal_state_front();
    lemma_literal_text_end();
}

proof fn lemma_reason_line(state: Seq<char>, text: Seq<char>)
    ensures
        ({
            let event = PlatformEventView::StateChange { state, reason: Some(text) };
            event_doc(event).text() == event_line(event)
        }),
{
    broadcast use lemma_concat_to_left;

    let event = PlatformEventView::StateChange { state, reason: Some(text) };
    let members = event_doc(event)->Record_0;
    lemma_short_record_text(members);
    lemma_member_text(members, 0);
    lemma_member_text(members, 1);
    lemma_member_text(members, 2);
    lemma_names_are_plain();
    assert(members[0].1.text() == seq!['"'] + "stateChange"@ + seq!['"']);
    assert(members[1].1.text() == seq!['"'] + escaped(state) + seq!['"']);
    assert(members[2].1.text() == seq!['"'] + escaped(text) + seq!['"']);
    lemma_literal_state_front();
    lemma_literal_reason();
    lemma_literal_text_end();
}

/// The text of an event's record is the event's line.
pub proof fn law_event_line_text(event: PlatformEventView)
    ensures
        event_doc(event).text() == event_line(event),
{
    match event {
        PlatformEventView::SendSignaling { call_id, message } => match message {
            SignalingEventView::SendOffer { opaque, call_media_type } => {
                lemma_offer_line(call_id, opaque, call_media_type);
            },
            SignalingEventView::SendAnswer { opaque } => {
                lemma_answer_line(call_id, opaque);
            },
            SignalingEventView::SendIce { candidates } => {
                lemma_ice_line(call_id, candidates);
            },
            SignalingEventView::SendHangup { hangup_type } => {
                lemma_hangup_line(call_id, hangup_type);
            },
            SignalingEventView::SendBusy => {
                lemma_busy_line(call_id);
            },
        },
        PlatformEventView::StateChange { state, reason } => match reason {
            Some(text) => {
                lemma_reason_line(state, text);
            },
            None => {
                lemma_state_line(state);
            },
        },
    }
}

/// The line that tells that the tunnel is ready, letter by letter.
pub open spec fn ready_text(input_device_name: Seq<char>, output_device_name: Seq<char>) -> Seq<
    char,
> {
    "{\"type\":\"ready\",\"inputDeviceName\":\""@ + escaped(input_device_name)
        + "\",\"outputDeviceName\":\""@ + escaped(output_device_name) + "\"}"@
}

/// The line that tells of a failed step, letter by letter.
pub open spec fn error_text(message: Seq<char>) -> Seq<char> {
    "{\"type\":\"error\",\"message\":\""@ + escaped(message) + "\"}"@
}

proof fn lemma_literal_ready_front()
    ensures
        "{\"type\":\"ready\",\"inputDeviceName\":\""@ == seq!['{'] + seq!['"'] + "type"@ + seq!['"']
            + seq![':'] + seq!['"'] + "ready"@ + seq!['"'] + seq![','] + seq!['"']
            + "inputDeviceName"@ + seq!['"'] + seq![':'] + seq!['"'],
{
    reveal_strlit("{\"type\":\"ready\",\"inputDeviceName\":\"");
    reveal_strlit("type");
    reveal_strlit("ready");
    reveal_strlit("inputDeviceName");
    assert("{\"type\":\"ready\",\"inputDeviceName\":\""@ =~= seq!['{'] + seq!['"'] + "type"@
        + seq!['"'] + seq![':'] + seq!['"'] + "ready"@ + seq!['"'] + seq![','] + seq!['"']
        + "inputDeviceName"@ + seq!['"'] + seq![':'] + seq!['"']);
}

proof fn lemma_literal_output_name()
    ensures
        "\",\"outputDeviceName\":\""@ == seq!['"'] + seq![','] + seq!['"'] + "outputDeviceName"@
            + seq!['"'] + seq![':'] + seq!['"'],
{
    reveal_strlit("\",\"outputDeviceName\":\"");
    reveal_strlit("outputDeviceName");
    assert("\",\"outputDeviceName\":\""@ =~= seq!['"'] + seq![','] + seq!['"'] + "outputDeviceName"@
        + seq!['"'] + seq![':'] + seq!['"']);
}

proof fn lemma_literal_error_front()
    ensures
        "{\"type\":\"error\",\"message\":\""@ == seq!['{'] + seq!['"'] + "type"@ + seq!['"']
            + seq![':'] + seq!['"'] + "error"@ + seq!['"'] + seq![','] + seq!['"'] + "message"@
            + seq!['"'] + seq![':'] + seq!['"'],
{
    reveal_strlit("{\"type\":\"error\",\"message\":\"");
    reveal_strlit("type");
    reveal_strlit("error");
    reveal_strlit("message");
    assert("{\"type\":\"error\",\"message\":\""@ =~= seq!['{'] + seq!['"'] + "type"@ + seq!['"']
        + seq![':'] + seq!['"'] + "error"@ + seq!['"'] + seq![','] + seq!['"'] + "message"@
        + seq!['"'] + seq![':'] + seq!['"']);
}

/// The text of the ready record is the ready line.
pub proof fn law_ready_line_text(input_device_name: Seq<char>, output_device_name: Seq<char>)
    ensures
        ready_doc(input_device_name, output_device_name).text() == ready_text(
            input_device_name,
            output_device_name,
        ),
{
    broadcast use lemma_concat_to_left;

    let members = ready_doc(input_device_name, output_device_name)->Record_0;
    lemma_short_record_text(members);
    lemma_member_text(members, 0);
    lemma_member_text(members, 1);
    lemma_member_text(members, 2);
    lemma_names_are_plain();
    assert(members[0].1.text() == seq!['"'] + "ready"@ + seq!['"']);
    assert(members[1].1.text() == seq!['"'] + escaped(input_device_name) + seq!['"']);
    assert(members[2].1.text() == seq!['"'] + escaped(output_device_name) + seq!['"']);
    lemma_literal_ready_front();
    lemma_literal_output_name();
    lemma_literal_text_end();
}

/// The text of an error record is the error line.
pub proof fn law_error_line_text(message: Seq<char>)
    ensures
        error_doc(message).text() == error_text(message),
{
    broadcast use lemma_concat_to_left;

    let members = error_doc(message)->Record_0;
    lemma_short_record_text(members);
    lemma_member_text(members, 0);
    lemma_member_text(members, 1);
    lemma_names_are_plain();
    assert(members[0].1.text() == seq!['"'] + "error"@ + seq!['"']);
    assert(members[1].1.text() == seq!['"'] + escaped(message) + seq!['"']);
    lemma_literal_error_front();
    lemma_literal_text_end();
}

} // verus!
