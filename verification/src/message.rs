//! The messages of the control protocol that the parent process sends.

use crate::json::{is_reading_of, items_view, json_document, read_json, Json, JsonView};
use crate::payload::{base64_bytes, decode_payload};
use crate::text::same_text;
use vstd::prelude::*;

verus! {

/// Messages parsed from the parent process.
#[derive(Debug)]
pub enum ControlMessage {
    Auth { token: String },
    CreateOutgoingCall { call_id: u64, peer_id: String },
    Proceed { call_id: u64, ice_servers: Vec<IceServerConfig>, hide_ip: bool },
    ReceivedOffer {
        call_id: u64,
        peer_id: String,
        sender_device_id: u32,
        opaque: Vec<u8>,
        age_ms: u64,
        sender_identity_key: Vec<u8>,
        receiver_identity_key: Vec<u8>,
    },
    ReceivedAnswer {
        opaque: Vec<u8>,
        sender_device_id: u32,
        sender_identity_key: Vec<u8>,
        receiver_identity_key: Vec<u8>,
    },
    ReceivedIce { candidates: Vec<Vec<u8>> },
    Accept,
    Hangup,
}

/// A relay server for the call's media.
#[derive(Debug, Clone)]
pub struct IceServerConfig {
    pub username: String,
    pub password: String,
    pub urls: Vec<String>,
}

/// Why a line is no control message.
#[derive(Debug)]
pub enum MessageError {
    InvalidJson,
    /// The `type` member, empty where there is none.
    UnknownType(String),
}

pub struct IceServerView {
    pub username: Seq<char>,
    pub password: Seq<char>,
    pub urls: Seq<Seq<char>>,
}

pub enum ControlMessageView {
    Auth { token: Seq<char> },
    CreateOutgoingCall { call_id: u64, peer_id: Seq<char> },
    Proceed { call_id: u64, ice_servers: Seq<IceServerView>, hide_ip: bool },
    ReceivedOffer {
        call_id: u64,
        peer_id: Seq<char>,
        sender_device_id: u32,
        opaque: Seq<u8>,
        age_ms: u64,
        sender_identity_key: Seq<u8>,
        receiver_identity_key: Seq<u8>,
    },
    ReceivedAnswer {
        opaque: Seq<u8>,
        sender_device_id: u32,
        sender_identity_key: Seq<u8>,
        receiver_identity_key: Seq<u8>,
    },
    ReceivedIce { candidates: Seq<Seq<u8>> },
    Accept,
    Hangup,
}

pub enum MessageErrorView {
    InvalidJson,
    UnknownType(Seq<char>),
}

/// The texts of some strings.
pub open spec fn texts(strings: Seq<String>) -> Seq<Seq<char>> {
    strings.map_values(|s: String| s@)
}

/// The contents of some byte vectors.
pub open spec fn blobs(vectors: Seq<Vec<u8>>) -> Seq<Seq<u8>> {
    vectors.map_values(|v: Vec<u8>| v@)
}

impl View for IceServerConfig {
    type V = IceServerView;

    open spec fn view(&self) -> IceServerView {
        IceServerView {
            username: self.username@,
            password: self.password@,
            urls: texts(self.urls@),
        }
    }
}

/// The views of some relay servers.
pub open spec fn server_views(servers: Seq<IceServerConfig>) -> Seq<IceServerView> {
    servers.map_values(|s: IceServerConfig| s@)
}

impl View for ControlMessage {
    type V = ControlMessageView;

    open spec fn view(&self) -> ControlMessageView {
        match *self {
            ControlMessage::Auth { token } => ControlMessageView::Auth { token: token@ },
            ControlMessage::CreateOutgoingCall { call_id, peer_id } =>
                ControlMessageView::CreateOutgoingCall { call_id, peer_id: peer_id@ },
            ControlMessage::Proceed { call_id, ice_servers, hide_ip } =>
                ControlMessageView::Proceed {
                    call_id,
                    ice_servers: server_views(ice_servers@),
                    hide_ip,
                },
            ControlMessage::ReceivedOffer {
                call_id,
                peer_id,
                sender_device_id,
                opaque,
                age_ms,
                sender_identity_key,
                receiver_identity_key,
            } => ControlMessageView::ReceivedOffer {
                call_id,
                peer_id: peer_id@,
                sender_device_id,
                opaque: opaque@,
                age_ms,
                sender_identity_key: sender_identity_key@,
                receiver_identity_key: receiver_identity_key@,
            },
            ControlMessage::ReceivedAnswer {
                opaque,
                sender_device_id,
                sender_identity_key,
                receiver_identity_key,
            } => ControlMessageView::ReceivedAnswer {
                opaque: opaque@,
                sender_device_id,
                sender_identity_key: sender_identity_key@,
                receiver_identity_key: receiver_identity_key@,
            },
            ControlMessage::ReceivedIce { candidates } => ControlMessageView::ReceivedIce {
                candidates: blobs(candidates@),
            },
            ControlMessage::Accept => ControlMessageView::Accept,
            ControlMessage::Hangup => ControlMessageView::Hangup,
        }
    }
}

impl View for MessageError {
    type V = MessageErrorView;

    open spec fn view(&self) -> MessageErrorView {
        match *self {
            MessageError::InvalidJson => MessageErrorView::InvalidJson,
            MessageError::UnknownType(name) => MessageErrorView::UnknownType(name@),
        }
    }
}

/// What parsing a line came to.
pub open spec fn parsed_view(parsed: Result<ControlMessage, MessageError>) -> Result<
    ControlMessageView,
    MessageErrorView,
> {
    match parsed {
        Ok(message) => Ok(message@),
        Err(error) => Err(error@),
    }
}

/// The text member `name` of `doc`, or `default` where there is no such text.
pub open spec fn text_or(doc: JsonView, name: Seq<char>, default: Seq<char>) -> Seq<char> {
    match doc.member(name).as_text() {
        Some(text) => text,
        None => default,
    }
}

/// The number member `name` of `doc`, or `default` where there is no such number.
pub open spec fn number_or(doc: JsonView, name: Seq<char>, default: u64) -> u64 {
    match doc.member(name).as_number() {
        Some(number) => number,
        None => default,
    }
}

/// The low 32 bits of a device number, or 1 where there is no number.
pub open spec fn device_id_of(doc: JsonView) -> u32 {
    (number_or(doc, "senderDeviceId"@, 1) % 0x1_0000_0000) as u32
}

/// The bytes behind the base64 member `name`; none where there is no base64 text.
pub open spec fn payload_of(doc: JsonView, name: Seq<char>) -> Seq<u8> {
    match base64_bytes(text_or(doc, name, seq![])) {
        Some(bytes) => bytes,
        None => seq![],
    }
}

/// The texts among `items`, in order.
pub open spec fn texts_among(items: Seq<JsonView>) -> Seq<Seq<char>>
    decreases items.len(),
{
    if items.len() == 0 {
        seq![]
    } else {
        match items.last().as_text() {
            Some(text) => texts_among(items.drop_last()).push(text),
            None => texts_among(items.drop_last()),
        }
    }
}

/// The bytes behind the base64 texts among `items`, in order.
pub open spec fn payloads_among(items: Seq<JsonView>) -> Seq<Seq<u8>>
    decreases items.len(),
{
    if items.len() == 0 {
        seq![]
    } else {
        let before = payloads_among(items.drop_last());
        match items.last().as_text() {
            Some(text) => match base64_bytes(text) {
                Some(bytes) => before.push(bytes),
                None => before,
            },
            None => before,
        }
    }
}

/// The items of the array member `name`; none where there is no such array.
pub open spec fn items_of(doc: JsonView, name: Seq<char>) -> Seq<JsonView> {
    match doc.member(name).as_items() {
        Some(items) => items,
        None => seq![],
    }
}

/// The relay server that `doc` describes.
pub open spec fn ice_server_of(doc: JsonView) -> IceServerView {
    IceServerView {
        username: text_or(doc, "username"@, seq![]),
        password: text_or(doc, "password"@, seq![]),
        urls: texts_among(items_of(doc, "urls"@)),
    }
}

/// The control message that a JSON document stands for.
pub open spec fn message_of(doc: JsonView) -> Result<ControlMessageView, MessageErrorView> {
    let kind = text_or(doc, "type"@, seq![]);
    if kind == "auth"@ {
        Ok(ControlMessageView::Auth { token: text_or(doc, "token"@, seq![]) })
    } else if kind == "createOutgoingCall"@ {
        Ok(
            ControlMessageView::CreateOutgoingCall {
                call_id: number_or(doc, "callId"@, 0),
                peer_id: text_or(doc, "peerId"@, seq![]),
            },
        )
    } else if kind == "proceed"@ {
        Ok(
            ControlMessageView::Proceed {
                call_id: number_or(doc, "callId"@, 0),
                ice_servers: items_of(doc, "iceServers"@).map_values(
                    |server: JsonView| ice_server_of(server),
                ),
                hide_ip: doc.member("hideIp"@).as_flag() == Some(true),
            },
        )
    } else if kind == "receivedOffer"@ {
        Ok(
            ControlMessageView::ReceivedOffer {
                call_id: number_or(doc, "callId"@, 0),
                peer_id: text_or(doc, "peerId"@, "remote"@),
                sender_device_id: device_id_of(doc),
                opaque: payload_of(doc, "opaque"@),
                age_ms: number_or(doc, "age"@, 0),
                sender_identity_key: payload_of(doc, "senderIdentityKey"@),
                receiver_identity_key: payload_of(doc, "receiverIdentityKey"@),
            },
        )
    } else if kind == "receivedAnswer"@ {
        Ok(
            ControlMessageView::ReceivedAnswer {
                opaque: payload_of(doc, "opaque"@),
                sender_device_id: device_id_of(doc),
                sender_identity_key: payload_of(doc, "senderIdentityKey"@),
                receiver_identity_key: payload_of(doc, "receiverIdentityKey"@),
            },
        )
    } else if kind == "receivedIce"@ {
        Ok(
            ControlMessageView::ReceivedIce {
                candidates: payloads_among(items_of(doc, "candidates"@)),
            },
        )
    } else if kind == "accept"@ {
        Ok(ControlMessageView::Accept)
    } else if kind == "hangup"@ {
        Ok(ControlMessageView::Hangup)
    } else {
        Err(MessageErrorView::UnknownType(kind))
    }
}

/// What a line comes to, by the document that was read from it, if any was.
pub open spec fn line_meaning(doc: Option<JsonView>) -> Result<
    ControlMessageView,
    MessageErrorView,
> {
    match doc {
        Some(doc) => message_of(doc),
        None => Err(MessageErrorView::InvalidJson),
    }
}

fn text_member_or(doc: &Json, name: &str, default: &str) -> (text: String)
    ensures
        text@ == text_or(doc@, name@, default@),
{
    match doc.text_member(name) {
        Some(text) => text.to_string(),
        None => default.to_string(),
    }
}

fn number_member_or(doc: &Json, name: &str, default: u64) -> (number: u64)
    ensures
        number == number_or(doc@, name@, default),
{
    match doc.number_member(name) {
        Some(number) => number,
        None => default,
    }
}

fn sender_device_id(doc: &Json) -> (id: u32)
    ensures
        id == device_id_of(doc@),
{
    (number_member_or(doc, "senderDeviceId", 1) % 0x1_0000_0000) as u32
}

fn payload_member(doc: &Json, name: &str) -> (bytes: Vec<u8>)
    ensures
        bytes@ == payload_of(doc@, name@),
{
    let text = text_member_or(doc, name, "");
    proof {
        reveal_strlit("");
        assert(""@ =~= seq![]);
    }
    match decode_payload(text.as_str()) {
        Some(bytes) => bytes,
        None => Vec::new(),
    }
}

fn text_items(items: &Vec<Json>) -> (found: Vec<String>)
    ensures
        texts(found@) == texts_among(items_view(items@)),
{
    let mut found: Vec<String> = Vec::new();
    let mut i: usize = 0;
    let ghost all = items_view(items@);
    assert(all.take(0) =~= seq![]);
    assert(texts(found@) =~= seq![]);
    while i < items.len()
        invariant
            i <= items.len(),
            all == items_view(items@),
            texts(found@) == texts_among(all.take(i as int)),
        decreases items.len() - i,
    {
        let ghost before = found@;
        assert(all.take(i + 1).drop_last() =~= all.take(i as int));
        assert(all.take(i + 1).last() == items@[i as int]@);
        match items[i].as_text() {
            Some(text) => {
                found.push(text.to_string());
                assert(texts(found@) =~= texts(before).push(text@));
            },
            None => {},
        }
        i += 1;
    }
    assert(all.take(items@.len() as int) =~= all);
    found
}

fn payload_items(items: &Vec<Json>) -> (found: Vec<Vec<u8>>)
    ensures
        blobs(found@) == payloads_among(items_view(items@)),
{
    let mut found: Vec<Vec<u8>> = Vec::new();
    let mut i: usize = 0;
    let ghost all = items_view(items@);
    assert(all.take(0) =~= seq![]);
    assert(blobs(found@) =~= seq![]);
    while i < items.len()
        invariant
            i <= items.len(),
            all == items_view(items@),
            blobs(found@) == payloads_among(all.take(i as int)),
        decreases items.len() - i,
    {
        let ghost before = found@;
        assert(all.take(i + 1).drop_last() =~= all.take(i as int));
        assert(all.take(i + 1).last() == items@[i as int]@);
        match items[i].as_text() {
            Some(text) => match decode_payload(text) {
                Some(bytes) => {
                    found.push(bytes);
                    assert(blobs(found@) =~= blobs(before).push(bytes@));
                },
                None => {},
            },
            None => {},
        }
        i += 1;
    }
    assert(all.take(items@.len() as int) =~= all);
    found
}

fn ice_server(doc: &Json) -> (server: IceServerConfig)
    ensures
        server@ == ice_server_of(doc@),
{
    proof {
        reveal_strlit("");
        assert(""@ =~= seq![]);
    }
    let urls = match doc.items_member("urls") {
        Some(items) => text_items(items),
        None => Vec::new(),
    };
    assert(texts(urls@) =~= texts_among(items_of(doc@, "urls"@)));
    IceServerConfig {
        username: text_member_or(doc, "username", ""),
        password: text_member_or(doc, "password", ""),
        urls,
    }
}

fn ice_server_items(items: &Vec<Json>) -> (servers: Vec<IceServerConfig>)
    ensures
        server_views(servers@) == items_view(items@).map_values(
            |server: JsonView| ice_server_of(server),
        ),
{
    let mut servers: Vec<IceServerConfig> = Vec::new();
    let mut i: usize = 0;
    while i < items.len()
        invariant
            i <= items.len(),
            servers@.len() == i,
            forall|j: int|
                0 <= j < i ==> (#[trigger] servers@[j])@ == ice_server_of(items_view(items@)[j]),
        decreases items.len() - i,
    {
        servers.push(ice_server(&items[i]));
        i += 1;
    }
    assert(server_views(servers@) =~= items_view(items@).map_values(
        |server: JsonView| ice_server_of(server),
    ));
    servers
}

/// The control message that a JSON document stands for.
pub fn message_from_json(doc: &Json) -> (message: Result<ControlMessage, MessageError>)
    ensures
        parsed_view(message) == message_of(doc@),
{
    proof {
        reveal_strlit("");
        assert(""@ =~= seq![]);
    }
    let kind = text_member_or(doc, "type", "");
    if same_text(kind.as_str(), "auth") {
        Ok(ControlMessage::Auth { token: text_member_or(doc, "token", "") })
    } else if same_text(kind.as_str(), "createOutgoingCall") {
        Ok(
            ControlMessage::CreateOutgoingCall {
                call_id: number_member_or(doc, "callId", 0),
                peer_id: text_member_or(doc, "peerId", ""),
            },
        )
    } else if same_text(kind.as_str(), "proceed") {
        let ice_servers = match doc.items_member("iceServers") {
            Some(items) => ice_server_items(items),
            None => Vec::new(),
        };
        assert(server_views(ice_servers@) =~= items_of(doc@, "iceServers"@).map_values(
            |server: JsonView| ice_server_of(server),
        ));
        Ok(
            ControlMessage::Proceed {
                call_id: number_member_or(doc, "callId", 0),
                ice_servers,
                hide_ip: match doc.flag_member("hideIp") {
                    Some(flag) => flag,
                    None => false,
                },
            },
        )
    } else if same_text(kind.as_str(), "receivedOffer") {
        Ok(
            ControlMessage::ReceivedOffer {
                call_id: number_member_or(doc, "callId", 0),
                peer_id: text_member_or(doc, "peerId", "remote"),
                sender_device_id: sender_device_id(doc),
                opaque: payload_member(doc, "opaque"),
                age_ms: number_member_or(doc, "age", 0),
                sender_identity_key: payload_member(doc, "senderIdentityKey"),
                receiver_identity_key: payload_member(doc, "receiverIdentityKey"),
            },
        )
    } else if same_text(kind.as_str(), "receivedAnswer") {
        Ok(
            ControlMessage::ReceivedAnswer {
                opaque: payload_member(doc, "opaque"),
                sender_device_id: sender_device_id(doc),
                sender_identity_key: payload_member(doc, "senderIdentityKey"),
                receiver_identity_key: payload_member(doc, "receiverIdentityKey"),
            },
        )
    } else if same_text(kind.as_str(), "receivedIce") {
        let candidates = match doc.items_member("candidates") {
            Some(items) => payload_items(items),
            None => Vec::new(),
        };
        assert(blobs(candidates@) =~= payloads_among(items_of(doc@, "candidates"@)));
        Ok(ControlMessage::ReceivedIce { candidates })
    } else if same_text(kind.as_str(), "accept") {
        Ok(ControlMessage::Accept)
    } else if same_text(kind.as_str(), "hangup") {
        Ok(ControlMessage::Hangup)
    } else {
        Err(MessageError::UnknownType(kind))
    }
}

/// Parse a JSON line into a control message.
pub fn parse_message(line: &str) -> (message: Result<ControlMessage, MessageError>)
    ensures
        parsed_view(message) == line_meaning(json_document(line@)),
        is_reading_of(json_document(line@), line@),
{
    match read_json(line) {
        Some(doc) => message_from_json(&doc),
        None => Err(MessageError::InvalidJson),
    }
}

impl MessageError {
    /// The error in words.
    pub fn message(&self) -> (text: String)
        ensures
            text@ == match self@ {
                MessageErrorView::InvalidJson => "invalid JSON"@,
                MessageErrorView::UnknownType(kind) => "unknown message type: "@ + kind,
            },
    {
        match self {
            MessageError::InvalidJson => "invalid JSON".to_string(),
            MessageError::UnknownType(kind) => {
                let mut text = "unknown message type: ".to_string();
                text.append(kind.as_str());
                text
            },
        }
    }
}

/// A message shows what it holds, member by member.
pub proof fn law_message_shows_what_it_holds(message: ControlMessage)
    ensures
        match message {
            ControlMessage::Auth { token } => message@ == (ControlMessageView::Auth {
                token: token@,
            }),
            ControlMessage::CreateOutgoingCall { call_id, peer_id } => message@ == (
            ControlMessageView::CreateOutgoingCall { call_id, peer_id: peer_id@ }),
            ControlMessage::Proceed { call_id, ice_servers, hide_ip } => {
                &&& message@ matches ControlMessageView::Proceed {
                    call_id: id,
                    ice_servers: servers,
                    hide_ip: hide,
                }
                &&& id == call_id
                &&& hide == hide_ip
                &&& servers.len() == ice_servers@.len()
                &&& forall|i: int|
                    #![trigger servers[i]]
                    0 <= i < servers.len() ==> {
                        let urls = ice_servers@[i].urls@;
                        &&& servers[i].username == ice_servers@[i].username@
                        &&& servers[i].password == ice_servers@[i].password@
                        &&& servers[i].urls.len() == urls.len()
                        &&& forall|j: int|
                            0 <= j < urls.len() ==> (#[trigger] servers[i].urls[j]) == urls[j]@
                    }
            },
            ControlMessage::ReceivedOffer {
                call_id,
                peer_id,
                sender_device_id,
                opaque,
                age_ms,
                sender_identity_key,
                receiver_identity_key,
            } => message@ == (ControlMessageView::ReceivedOffer {
                call_id,
                peer_id: peer_id@,
                sender_device_id,
                opaque: opaque@,
                age_ms,
                sender_identity_key: sender_identity_key@,
                receiver_identity_key: receiver_identity_key@,
            }),
            ControlMessage::ReceivedAnswer {
                opaque,
                sender_device_id,
                sender_identity_key,
                receiver_identity_key,
            } => message@ == (ControlMessageView::ReceivedAnswer {
                opaque: opaque@,
                sender_device_id,
                sender_identity_key: sender_identity_key@,
                receiver_identity_key: receiver_identity_key@,
            }),
            ControlMessage::ReceivedIce { candidates } => {
                &&& message@ matches ControlMessageView::ReceivedIce { candidates: payloads }
                &&& payloads.len() == candidates@.len()
                &&& forall|i: int|
                    0 <= i < payloads.len() ==> (#[trigger] payloads[i]) == candidates@[i]@
            },
            ControlMessage::Accept => message@ is Accept,
            ControlMessage::Hangup => message@ is Hangup,
        },
{
}

} // verus!
