//! What the call engine reports, and the lines that carry it to the parent process.

use crate::document::{
    distinct_members, is_one_line, law_plain_text_is_one_line, lemma_record_members, Doc,
    RecordWriter,
};
use crate::escape::needs_no_escape;
use crate::json::{is_reading_of, JsonView};
use crate::line_text::{event_line, law_event_line_text};
use crate::message::blobs;
use crate::payload::{base64_bytes, base64_text, lemma_payload_text, standard_encode};
use crate::text::ascii_lower_text;
use vstd::prelude::*;
use vstd::utf8::is_ascii_chars;

verus! {

/// The media that a call carries.
#[derive(Debug, Clone, Copy, PartialEq, Eq, Structural)]
pub enum CallMediaType {
    Audio,
    Video,
}

/// Events sent from the call engine's callbacks to the control channel writer.
#[derive(Debug)]
pub enum PlatformEvent {
    /// A signaling message to send to the parent process.
    SendSignaling { call_id: u64, message: SignalingEvent },
    /// A call state change.
    StateChange { state: String, reason: Option<String> },
}

#[derive(Debug)]
pub enum SignalingEvent {
    SendOffer { opaque: Vec<u8>, call_media_type: CallMediaType },
    SendAnswer { opaque: Vec<u8> },
    SendIce { candidates: Vec<Vec<u8>> },
    SendHangup { hangup_type: String },
    SendBusy,
}

pub enum PlatformEventView {
    SendSignaling { call_id: u64, message: SignalingEventView },
    StateChange { state: Seq<char>, reason: Option<Seq<char>> },
}

pub enum SignalingEventView {
    SendOffer { opaque: Seq<u8>, call_media_type: CallMediaType },
    SendAnswer { opaque: Seq<u8> },
    SendIce { candidates: Seq<Seq<u8>> },
    SendHangup { hangup_type: Seq<char> },
    SendBusy,
}

impl View for SignalingEvent {
    type V = SignalingEventView;

    open spec fn view(&self) -> SignalingEventView {
        match *self {
            SignalingEvent::SendOffer { opaque, call_media_type } =>
                SignalingEventView::SendOffer { opaque: opaque@, call_media_type },
            SignalingEvent::SendAnswer { opaque } => SignalingEventView::SendAnswer {
                opaque: opaque@,
            },
            SignalingEvent::SendIce { candidates } => SignalingEventView::SendIce {
                candidates: blobs(candidates@),
            },
            SignalingEvent::SendHangup { hangup_type } => SignalingEventView::SendHangup {
                hangup_type: hangup_type@,
            },
            SignalingEvent::SendBusy => SignalingEventView::SendBusy,
        }
    }
}

/// The text of a string that may be missing.
pub open spec fn optional_text(text: Option<String>) -> Option<Seq<char>> {
    match text {
        Some(text) => Some(text@),
        None => None,
    }
}

impl View for PlatformEvent {
    type V = PlatformEventView;

    open spec fn view(&self) -> PlatformEventView {
        match *self {
            PlatformEvent::SendSignaling { call_id, message } =>
                PlatformEventView::SendSignaling { call_id, message: message@ },
            PlatformEvent::StateChange { state, reason } => PlatformEventView::StateChange {
                state: state@,
                reason: optional_text(reason),
            },
        }
    }
}

/// The name of a media type in a `sendOffer` line.
pub open spec fn media_type_name(media_type: CallMediaType) -> Seq<char> {
    match media_type {
        CallMediaType::Audio => "audio"@,
        CallMediaType::Video => "video"@,
    }
}

/// The record that carries one connection candidate.
pub open spec fn candidate_doc(candidate: Seq<u8>) -> Doc {
    Doc::Record(seq![("opaque"@, Doc::Text(base64_text(candidate)))])
}

/// The record that carries an event to the parent process.
pub open spec fn event_doc(event: PlatformEventView) -> Doc {
    match event {
        PlatformEventView::SendSignaling { call_id, message } => match message {
            SignalingEventView::SendOffer { opaque, call_media_type } => Doc::Record(
                seq![
                    ("type"@, Doc::Text("sendOffer"@)),
                    ("callId"@, Doc::Number(call_id)),
                    ("opaque"@, Doc::Text(base64_text(opaque))),
                    ("callMediaType"@, Doc::Text(media_type_name(call_media_type))),
                ],
            ),
            SignalingEventView::SendAnswer { opaque } => Doc::Record(
                seq![
                    ("type"@, Doc::Text("sendAnswer"@)),
                    ("callId"@, Doc::Number(call_id)),
                    ("opaque"@, Doc::Text(base64_text(opaque))),
                ],
            ),
            SignalingEventView::SendIce { candidates } => Doc::Record(
                seq![
                    ("type"@, Doc::Text("sendIce"@)),
                    ("callId"@, Doc::Number(call_id)),
                    (
                        "candidates"@,
                        Doc::List(candidates.map_values(|c: Seq<u8>| candidate_doc(c))),
                    ),
                ],
            ),
            SignalingEventView::SendHangup { hangup_type } => Doc::Record(
                seq![
                    ("type"@, Doc::Text("sendHangup"@)),
                    ("callId"@, Doc::Number(call_id)),
                    ("hangupType"@, Doc::Text(hangup_type)),
                ],
            ),
            SignalingEventView::SendBusy => Doc::Record(
                seq![("type"@, Doc::Text("sendBusy"@)), ("callId"@, Doc::Number(call_id))],
            ),
        },
        PlatformEventView::StateChange { state, reason } => match reason {
            Some(reason) => Doc::Record(
                seq![
                    ("type"@, Doc::Text("stateChange"@)),
                    ("state"@, Doc::Text(state)),
                    ("reason"@, Doc::Text(reason)),
                ],
            ),
            None => Doc::Record(
                seq![("type"@, Doc::Text("stateChange"@)), ("state"@, Doc::Text(state))],
            ),
        },
    }
}

/// The text of one candidate's record.
fn candidate_text(candidate: &Vec<u8>) -> (text: String)
    ensures
        text@ == candidate_doc(candidate@).text(),
{
    let mut record = RecordWriter::new();
    record.add_text("opaque", standard_encode(candidate.as_slice()).as_str());
    assert(record.members@ =~= seq![("opaque"@, Doc::Text(base64_text(candidate@)))]);
    record.finish()
}

impl PlatformEvent {
    /// The line that carries the event: a JSON record, its members in a fixed order, no white
    /// space between them.
    pub fn to_json(&self) -> (line: String)
        ensures
            line@ == event_line(self@),
            line@ == event_doc(self@).text(),
            is_one_line(line@),
    {
        let mut record = RecordWriter::new();
        match self {
            PlatformEvent::SendSignaling { call_id, message } => match message {
                SignalingEvent::SendOffer { opaque, call_media_type } => {
                    record.add_text("type", "sendOffer");
                    record.add_number("callId", *call_id);
                    record.add_text("opaque", standard_encode(opaque.as_slice()).as_str());
                    let media_type = match call_media_type {
                        CallMediaType::Audio => "audio",
                        CallMediaType::Video => "video",
                    };
                    record.add_text("callMediaType", media_type);
                },
                SignalingEvent::SendAnswer { opaque } => {
                    record.add_text("type", "sendAnswer");
                    record.add_number("callId", *call_id);
                    record.add_text("opaque", standard_encode(opaque.as_slice()).as_str());
                },
                SignalingEvent::SendIce { candidates } => {
                    record.add_text("type", "sendIce");
                    record.add_number("callId", *call_id);
                    let ghost docs = blobs(candidates@).map_values(
                        |c: Seq<u8>| candidate_doc(c),
                    );
                    let mut items: Vec<String> = Vec::new();
                    let mut i: usize = 0;
                    while i < candidates.len()
                        invariant
                            i <= candidates.len(),
                            items@.len() == i,
                            docs == blobs(candidates@).map_values(|c: Seq<u8>| candidate_doc(c)),
                            forall|j: int|
                                0 <= j < i ==> (#[trigger] items@[j])@ == docs[j].text(),
                        decreases candidates.len() - i,
                    {
                        items.push(candidate_text(&candidates[i]));
                        i += 1;
                    }
                    record.add_list("candidates", &items, Ghost(docs));
                },
                SignalingEvent::SendHangup { hangup_type } => {
                    record.add_text("type", "sendHangup");
                    record.add_number("callId", *call_id);
                    record.add_text("hangupType", hangup_type.as_str());
                },
                SignalingEvent::SendBusy => {
                    record.add_text("type", "sendBusy");
                    record.add_number("callId", *call_id);
                },
            },
            PlatformEvent::StateChange { state, reason } => {
                record.add_text("type", "stateChange");
                record.add_text("state", state.as_str());
                match reason {
                    Some(reason) => {
                        record.add_text("reason", reason.as_str());
                    },
                    None => {},
                }
            },
        }
        assert(record.members@ =~= event_doc(self@)->Record_0);
        proof {
            law_event_line_text(self@);
            law_event_is_one_line(self@);
        }
        record.finish()
    }
}

/// A signaling message of the call engine.
#[derive(Debug)]
pub enum SignalingMessage {
    Offer { opaque: Vec<u8>, call_media_type: CallMediaType },
    Answer { opaque: Vec<u8> },
    Ice { candidates: Vec<Vec<u8>> },
    /// The hangup type by the name that the call engine gives it.
    Hangup { kind_name: String },
    Busy,
}

pub enum SignalingMessageView {
    Offer { opaque: Seq<u8>, call_media_type: CallMediaType },
    Answer { opaque: Seq<u8> },
    Ice { candidates: Seq<Seq<u8>> },
    Hangup { kind_name: Seq<char> },
    Busy,
}

impl View for SignalingMessage {
    type V = SignalingMessageView;

    open spec fn view(&self) -> SignalingMessageView {
        match *self {
            SignalingMessage::Offer { opaque, call_media_type } => SignalingMessageView::Offer {
                opaque: opaque@,
                call_media_type,
            },
            SignalingMessage::Answer { opaque } => SignalingMessageView::Answer { opaque: opaque@ },
            SignalingMessage::Ice { candidates } => SignalingMessageView::Ice {
                candidates: blobs(candidates@),
            },
            SignalingMessage::Hangup { kind_name } => SignalingMessageView::Hangup {
                kind_name: kind_name@,
            },
            SignalingMessage::Busy => SignalingMessageView::Busy,
        }
    }
}

/// The lower-case equivalent of a text, as `str::to_lowercase` gives it.
pub uninterp spec fn lowercase_text(text: Seq<char>) -> Seq<char>;

/// Calls `str::to_lowercase`. The result depends on the text alone; of a text of ASCII characters
/// it is the text with its ASCII letters in lower case.
#[verifier::external_body]
fn lowercase(text: &str) -> (lower: String)
    ensures
        lower@ == lowercase_text(text@),
        is_ascii_chars(text@) ==> lower@ == ascii_lower_text(text@),
{
    text.to_lowercase()
}

/// The event that relays a signaling message.
pub open spec fn relayed(message: SignalingMessageView) -> SignalingEventView {
    match message {
        SignalingMessageView::Offer { opaque, call_media_type } => SignalingEventView::SendOffer {
            opaque,
            call_media_type,
        },
        SignalingMessageView::Answer { opaque } => SignalingEventView::SendAnswer { opaque },
        SignalingMessageView::Ice { candidates } => SignalingEventView::SendIce { candidates },
        SignalingMessageView::Hangup { kind_name } => SignalingEventView::SendHangup {
            hangup_type: lowercase_text(kind_name),
        },
        SignalingMessageView::Busy => SignalingEventView::SendBusy,
    }
}

/// The event that relays a signaling message to the parent process.
pub fn signaling_event(call_id: u64, message: SignalingMessage) -> (event: PlatformEvent)
    ensures
        event@ == (PlatformEventView::SendSignaling { call_id, message: relayed(message@) }),
        message@ matches SignalingMessageView::Hangup { kind_name } ==> is_ascii_chars(kind_name)
            ==> lowercase_text(kind_name) == ascii_lower_text(kind_name),
{
    let relay = match message {
        SignalingMessage::Offer { opaque, call_media_type } => SignalingEvent::SendOffer {
            opaque,
            call_media_type,
        },
        SignalingMessage::Answer { opaque } => SignalingEvent::SendAnswer { opaque },
        SignalingMessage::Ice { candidates } => SignalingEvent::SendIce { candidates },
        SignalingMessage::Hangup { kind_name } => SignalingEvent::SendHangup {
            hangup_type: lowercase(kind_name.as_str()),
        },
        SignalingMessage::Busy => SignalingEvent::SendBusy,
    };
    PlatformEvent::SendSignaling { call_id, message: relay }
}

/// A state of the call, as the call engine reports it.
#[derive(Debug)]
pub enum CallState {
    Incoming(CallMediaType),
    Outgoing(CallMediaType),
    Ringing,
    Connected,
    Connecting,
    /// The call is over, for the reason of that name.
    Ended(String),
    /// The call was turned down, for the reason of that name.
    Rejected(String),
    Concluded,
}

/// The state and the reason that the parent process is told.
pub open spec fn state_report(state: CallState) -> (Seq<char>, Option<Seq<char>>) {
    match state {
        CallState::Incoming(CallMediaType::Audio) => ("Incoming(Audio)"@, None),
        CallState::Incoming(CallMediaType::Video) => ("Incoming(Video)"@, None),
        CallState::Outgoing(CallMediaType::Audio) => ("Outgoing(Audio)"@, None),
        CallState::Outgoing(CallMediaType::Video) => ("Outgoing(Video)"@, None),
        CallState::Ringing => ("Ringing"@, None),
        CallState::Connected => ("Connected"@, None),
        CallState::Connecting => ("Connecting"@, None),
        CallState::Ended(reason) => ("Ended"@, Some(reason@)),
        CallState::Rejected(reason) => ("Rejected"@, Some(reason@)),
        CallState::Concluded => ("Concluded"@, None),
    }
}

/// The event that tells the parent process of a call state.
pub fn state_event(call_state: CallState) -> (event: PlatformEvent)
    ensures
        event@ == (PlatformEventView::StateChange {
            state: state_report(call_state).0,
            reason: state_report(call_state).1,
        }),
{
    let (state, reason) = match call_state {
        CallState::Incoming(media_type) => match media_type {
            CallMediaType::Audio => ("Incoming(Audio)", None),
            CallMediaType::Video => ("Incoming(Video)", None),
        },
        CallState::Outgoing(media_type) => match media_type {
            CallMediaType::Audio => ("Outgoing(Audio)", None),
            CallMediaType::Video => ("Outgoing(Video)", None),
        },
        CallState::Ringing => ("Ringing", None),
        CallState::Connected => ("Connected", None),
        CallState::Connecting => ("Connecting", None),
        CallState::Ended(reason) => ("Ended", Some(reason)),
        CallState::Rejected(reason) => ("Rejected", Some(reason)),
        CallState::Concluded => ("Concluded", None),
    };
    PlatformEvent::StateChange { state: state.to_string(), reason }
}

/// The member `name` is the text `text`.
pub open spec fn says(doc: JsonView, name: Seq<char>, text: Seq<char>) -> bool {
    doc.member(name).as_text() == Some(text)
}

/// The member `name` is a base64 text for `bytes`.
pub open spec fn carries(doc: JsonView, name: Seq<char>, bytes: Seq<u8>) -> bool {
    doc.member(name).as_text() matches Some(text) && base64_bytes(text) == Some(bytes)
}

/// A JSON document tells all that there is to an event.
pub open spec fn tells_event(doc: JsonView, event: PlatformEventView) -> bool {
    match event {
        PlatformEventView::SendSignaling { call_id, message } => {
            &&& doc.member("callId"@).as_number() == Some(call_id)
            &&& match message {
                SignalingEventView::SendOffer { opaque, call_media_type } => {
                    &&& says(doc, "type"@, "sendOffer"@)
                    &&& carries(doc, "opaque"@, opaque)
                    &&& says(doc, "callMediaType"@, media_type_name(call_media_type))
                },
                SignalingEventView::SendAnswer { opaque } => {
                    &&& says(doc, "type"@, "sendAnswer"@)
                    &&& carries(doc, "opaque"@, opaque)
                },
                SignalingEventView::SendIce { candidates } => {
                    &&& says(doc, "type"@, "sendIce"@)
                    &&& doc.member("candidates"@).as_items() matches Some(items)
                    &&& items.len() == candidates.len()
                    &&& forall|i: int|
                        0 <= i < candidates.len() ==> carries(
                            #[trigger] items[i],
                            "opaque"@,
                            candidates[i],
                        )
                },
                SignalingEventView::SendHangup { hangup_type } => {
                    &&& says(doc, "type"@, "sendHangup"@)
                    &&& says(doc, "hangupType"@, hangup_type)
                },
                SignalingEventView::SendBusy => says(doc, "type"@, "sendBusy"@),
            }
        },
        PlatformEventView::StateChange { state, reason } => {
            &&& says(doc, "type"@, "stateChange"@)
            &&& says(doc, "state"@, state)
            &&& match reason {
                Some(text) => says(doc, "reason"@, text),
                None => doc.member("reason"@) == JsonView::Null,
            }
        },
    }
}

proof fn lemma_names()
    ensures
        "type"@.len() == 4,
        "callId"@.len() == 6,
        "callId"@[0] == 'c',
        "opaque"@.len() == 6,
        "opaque"@[0] == 'o',
        "callMediaType"@.len() == 13,
        "candidates"@.len() == 10,
        "hangupType"@.len() == 10,
        "state"@.len() == 5,
        "reason"@.len() == 6,
        "reason"@[0] == 'r',
        needs_no_escape("type"@),
        needs_no_escape("callId"@),
        needs_no_escape("opaque"@),
        needs_no_escape("callMediaType"@),
        needs_no_escape("candidates"@),
        needs_no_escape("hangupType"@),
        needs_no_escape("state"@),
        needs_no_escape("reason"@),
{
    reveal_strlit("type");
    reveal_strlit("callId");
    reveal_strlit("opaque");
    reveal_strlit("callMediaType");
    reveal_strlit("candidates");
    reveal_strlit("hangupType");
    reveal_strlit("state");
    reveal_strlit("reason");
}

proof fn lemma_candidate_doc(candidate: Seq<u8>)
    ensures
        carries(candidate_doc(candidate).tree(), "opaque"@, candidate),
{
    lemma_names();
    lemma_payload_text(candidate);
    let members = candidate_doc(candidate)->Record_0;
    lemma_record_members(members);
    assert(members[0].1.tree() == JsonView::Text(base64_text(candidate)));
}

/// The record of an event is plain, lists and records nested at most three deep.
proof fn lemma_event_doc_is_plain(event: PlatformEventView)
    ensures
        event_doc(event).is_plain(127),
{
    lemma_names();
    let members = event_doc(event)->Record_0;
    if let PlatformEventView::SendSignaling { message, .. } = event {
        if let SignalingEventView::SendIce { candidates } = message {
            let items = members[2].1->List_0;
            assert forall|j: int| 0 <= j < items.len() implies (#[trigger] items[j]).is_plain(
                125,
            ) by {
                assert(items[j] == candidate_doc(candidates[j]));
                assert(items[j]->Record_0[0].1.is_plain(124));
            }
            assert(members[2].1.is_plain(126));
        }
    }
    assert forall|i: int| 0 <= i < members.len() implies needs_no_escape(
        (#[trigger] members[i]).0,
    ) && members[i].1.is_plain(126) by {}
}

/// An event's line reads back, whatever its texts hold: what the JSON reader gives for it is a
/// document that tells all there is to the event, each payload as base64 text that decodes to the
/// payload.
pub proof fn law_event_line_reads_back(event: PlatformEventView, read: Option<JsonView>)
    requires
        is_reading_of(read, event_doc(event).text()),
    ensures
        read matches Some(doc) && tells_event(doc, event),
{
    lemma_names();
    lemma_event_doc_is_plain(event);
    let doc = event_doc(event).tree();
    assert(read == Some(doc));
    let members = event_doc(event)->Record_0;
    assert(distinct_members(members));
    lemma_record_members(members);
    assert(members[0].1.tree() is Text);
    match event {
        PlatformEventView::SendSignaling { call_id, message } => {
            assert(members[1].1.tree() == JsonView::Number(Some(call_id)));
            match message {
                SignalingEventView::SendOffer { opaque, call_media_type } => {
                    lemma_payload_text(opaque);
                    assert(members[2].1.tree() == JsonView::Text(base64_text(opaque)));
                    assert(members[3].1.tree() is Text);
                },
                SignalingEventView::SendAnswer { opaque } => {
                    lemma_payload_text(opaque);
                    assert(members[2].1.tree() == JsonView::Text(base64_text(opaque)));
                },
                SignalingEventView::SendIce { candidates } => {
                    let docs = members[2].1->List_0;
                    let items = Doc::item_trees(docs);
                    assert(members[2].1.tree() == JsonView::Array(items));
                    assert forall|i: int| 0 <= i < candidates.len() implies carries(
                        #[trigger] items[i],
                        "opaque"@,
                        candidates[i],
                    ) by {
                        lemma_candidate_doc(candidates[i]);
                        assert(docs[i] == candidate_doc(candidates[i]));
                    }
                },
                SignalingEventView::SendHangup { hangup_type } => {
                    assert(members[2].1.tree() is Text);
                },
                SignalingEventView::SendBusy => {},
            }
        },
        PlatformEventView::StateChange { state, reason } => {
            assert(members[1].1.tree() is Text);
            if reason is Some {
                assert(members[2].1.tree() is Text);
            }
        },
    }
}

/// An event takes one line of the control protocol, whatever its texts hold.
pub proof fn law_event_is_one_line(event: PlatformEventView)
    ensures
        is_one_line(event_doc(event).text()),
{
    lemma_event_doc_is_plain(event);
    law_plain_text_is_one_line(event_doc(event), 127);
}

/// The line that relays a signaling message of the call engine reads back as that message: its
/// type, its call and its own payloads, an offer's media type as `audio` exactly where the offer is
/// of audio and as `video` exactly where it is of video, and a hangup's type in lower case.
pub proof fn law_relayed_message_reads_back(
    call_id: u64,
    message: SignalingMessageView,
    read: Option<JsonView>,
)
    requires
        is_reading_of(
            read,
            event_doc(
                PlatformEventView::SendSignaling { call_id, message: relayed(message) },
            ).text(),
        ),
    ensures
        read matches Some(doc) && {
            &&& doc.member("callId"@).as_number() == Some(call_id)
            &&& match message {
                SignalingMessageView::Offer { opaque, call_media_type } => {
                    &&& says(doc, "type"@, "sendOffer"@)
                    &&& carries(doc, "opaque"@, opaque)
                    &&& call_media_type is Audio <==> says(doc, "callMediaType"@, "audio"@)
                    &&& call_media_type is Video <==> says(doc, "callMediaType"@, "video"@)
                },
                SignalingMessageView::Answer { opaque } => {
                    &&& says(doc, "type"@, "sendAnswer"@)
                    &&& carries(doc, "opaque"@, opaque)
                },
                SignalingMessageView::Ice { candidates } => {
                    &&& says(doc, "type"@, "sendIce"@)
                    &&& doc.member("candidates"@).as_items() matches Some(items) && {
                        &&& items.len() == candidates.len()
                        &&& forall|i: int|
                            0 <= i < candidates.len() ==> carries(
                                #[trigger] items[i],
                                "opaque"@,
                                candidates[i],
                            )
                    }
                },
                SignalingMessageView::Hangup { kind_name } => {
                    &&& says(doc, "type"@, "sendHangup"@)
                    &&& says(doc, "hangupType"@, lowercase_text(kind_name))
                },
                SignalingMessageView::Busy => says(doc, "type"@, "sendBusy"@),
            }
        },
{
    reveal_strlit("audio");
    reveal_strlit("video");
    assert("audio"@[0] == 'a' && "video"@[0] == 'v');
    law_event_line_reads_back(
        PlatformEventView::SendSignaling { call_id, message: relayed(message) },
        read,
    );
}

/// The line that tells of a call state reads back as that state: by its name, with the media type
/// of an incoming or outgoing call, and with the reason of a call that ended or was turned down,
/// which no other state has.
pub proof fn law_call_state_reads_back(state: CallState, read: Option<JsonView>)
    requires
        is_reading_of(
            read,
            event_doc(
                PlatformEventView::StateChange {
                    state: state_report(state).0,
                    reason: state_report(state).1,
                },
            ).text(),
        ),
    ensures
        read matches Some(doc) && {
            &&& says(doc, "type"@, "stateChange"@)
            &&& doc.member("reason"@) == match state {
                CallState::Ended(reason) => JsonView::Text(reason@),
                CallState::Rejected(reason) => JsonView::Text(reason@),
                _ => JsonView::Null,
            }
            &&& match state {
                CallState::Incoming(media_type) => if media_type is Audio {
                    says(doc, "state"@, "Incoming(Audio)"@)
                } else {
                    says(doc, "state"@, "Incoming(Video)"@)
                },
                CallState::Outgoing(media_type) => if media_type is Audio {
                    says(doc, "state"@, "Outgoing(Audio)"@)
                } else {
                    says(doc, "state"@, "Outgoing(Video)"@)
                },
                CallState::Ringing => says(doc, "state"@, "Ringing"@),
                CallState::Connected => says(doc, "state"@, "Connected"@),
                CallState::Connecting => says(doc, "state"@, "Connecting"@),
                CallState::Ended(_) => says(doc, "state"@, "Ended"@),
                CallState::Rejected(_) => says(doc, "state"@, "Rejected"@),
                CallState::Concluded => says(doc, "state"@, "Concluded"@),
            }
        },
{
    let event = PlatformEventView::StateChange {
        state: state_report(state).0,
        reason: state_report(state).1,
    };
    law_event_line_reads_back(event, read);
    let doc = read->0;
    assert(tells_event(doc, event));
    if state is Ended || state is Rejected {
        assert(doc.member("reason"@).as_text() is Some);
    }
}

/// A member carries one payload at most, and the base64 text of that one.
pub proof fn law_member_carries_one_payload(
    doc: JsonView,
    name: Seq<char>,
    one: Seq<u8>,
    other: Seq<u8>,
)
    requires
        carries(doc, name, one),
        carries(doc, name, other),
    ensures
        one == other,
        doc.member(name) == JsonView::Text(base64_text(one)),
{
    let text = doc.member(name).as_text()->0;
    assert(exists|bytes: Seq<u8>| base64_text(bytes) == text);
}

/// An event shows what it holds, member by member.
pub proof fn law_event_shows_what_it_holds(event: PlatformEvent)
    ensures
        match event {
            PlatformEvent::SendSignaling { call_id, message } => {
                &&& event@ matches PlatformEventView::SendSignaling {
                    call_id: id,
                    message: shown,
                }
                &&& id == call_id
                &&& match message {
                    SignalingEvent::SendOffer { opaque, call_media_type } => shown == (
                    SignalingEventView::SendOffer { opaque: opaque@, call_media_type }),
                    SignalingEvent::SendAnswer { opaque } => shown == (
                    SignalingEventView::SendAnswer { opaque: opaque@ }),
                    SignalingEvent::SendIce { candidates } => {
                        &&& shown matches SignalingEventView::SendIce { candidates: payloads }
                        &&& payloads.len() == candidates@.len()
                        &&& forall|i: int|
                            0 <= i < payloads.len() ==> (#[trigger] payloads[i])
                                == candidates@[i]@
                    },
                    SignalingEvent::SendHangup { hangup_type } => shown == (
                    SignalingEventView::SendHangup { hangup_type: hangup_type@ }),
                    SignalingEvent::SendBusy => shown is SendBusy,
                }
            },
            PlatformEvent::StateChange { state, reason } => {
                &&& event@ matches PlatformEventView::StateChange { state: name, reason: why }
                &&& name == state@
                &&& reason is None <==> why is None
                &&& reason matches Some(text) ==> why == Some(text@)
            },
        },
{
}

/// A line tells of its event and of nothing else: its record has as many members as there is to
/// tell, the type first.
pub proof fn law_event_tells_nothing_else(event: PlatformEventView)
    ensures
        ({
            let members = event_doc(event)->Record_0;
            &&& event_doc(event) is Record
            &&& members[0].0 == "type"@
            &&& members.len() == match event {
                PlatformEventView::SendSignaling { message, .. } => match message {
                    SignalingEventView::SendOffer { .. } => 4nat,
                    SignalingEventView::SendAnswer { .. } => 3nat,
                    SignalingEventView::SendIce { .. } => 3nat,
                    SignalingEventView::SendHangup { .. } => 3nat,
                    SignalingEventView::SendBusy => 2nat,
                },
                PlatformEventView::StateChange { reason, .. } => if reason is Some {
                    3nat
                } else {
                    2nat
                },
            }
        }),
{
}

/// A signaling message shows what it holds, member by member.
pub proof fn law_signaling_message_shows_what_it_holds(message: SignalingMessage)
    ensures
        match message {
            SignalingMessage::Offer { opaque, call_media_type } => message@ == (
            SignalingMessageView::Offer { opaque: opaque@, call_media_type }),
            SignalingMessage::Answer { opaque } => message@ == (SignalingMessageView::Answer {
                opaque: opaque@,
            }),
            SignalingMessage::Ice { candidates } => {
                &&& message@ matches SignalingMessageView::Ice { candidates: payloads }
                &&& payloads.len() == candidates@.len()
                &&& forall|i: int|
                    0 <= i < payloads.len() ==> (#[trigger] payloads[i]) == candidates@[i]@
            },
            SignalingMessage::Hangup { kind_name } => message@ == (SignalingMessageView::Hangup {
                kind_name: kind_name@,
            }),
            SignalingMessage::Busy => message@ is Busy,
        },
{
}

} // verus!
