//! Control messages as they are written, and that they are understood as they were meant.

use crate::document::{distinct_members, lemma_record_members, Doc};
use crate::escape::needs_no_escape;
use crate::json::{is_reading_of, JsonView};
use crate::message::{
    ice_server_of, items_of, line_meaning, message_of, payload_of, payloads_among, text_or,
    texts_among, ControlMessageView, IceServerView, MessageErrorView,
};
use crate::payload::{base64_bytes, base64_text, lemma_payload_text};
use vstd::prelude::*;

verus! {

/// A list of texts.
pub open spec fn text_list(texts: Seq<Seq<char>>) -> Doc {
    Doc::List(texts.map_values(|t: Seq<char>| Doc::Text(t)))
}

/// A list of base64 texts.
pub open spec fn payload_list(payloads: Seq<Seq<u8>>) -> Doc {
    text_list(payloads.map_values(|p: Seq<u8>| base64_text(p)))
}

/// The record that describes a relay server.
pub open spec fn server_doc(server: IceServerView) -> Doc {
    Doc::Record(
        seq![
            ("username"@, Doc::Text(server.username)),
            ("password"@, Doc::Text(server.password)),
            ("urls"@, text_list(server.urls)),
        ],
    )
}

/// The record that stands for a control message.
pub open spec fn message_doc(message: ControlMessageView) -> Doc {
    match message {
        ControlMessageView::Auth { token } => Doc::Record(
            seq![("type"@, Doc::Text("auth"@)), ("token"@, Doc::Text(token))],
        ),
        ControlMessageView::CreateOutgoingCall { call_id, peer_id } => Doc::Record(
            seq![
                ("type"@, Doc::Text("createOutgoingCall"@)),
                ("callId"@, Doc::Number(call_id)),
                ("peerId"@, Doc::Text(peer_id)),
            ],
        ),
        ControlMessageView::Proceed { call_id, ice_servers, hide_ip } => Doc::Record(
            seq![
                ("type"@, Doc::Text("proceed"@)),
                ("callId"@, Doc::Number(call_id)),
                ("hideIp"@, Doc::Flag(hide_ip)),
                (
                    "iceServers"@,
                    Doc::List(ice_servers.map_values(|s: IceServerView| server_doc(s))),
                ),
            ],
        ),
        ControlMessageView::ReceivedOffer {
            call_id,
            peer_id,
            sender_device_id,
            opaque,
            age_ms,
            sender_identity_key,
            receiver_identity_key,
        } => Doc::Record(
            seq![
                ("type"@, Doc::Text("receivedOffer"@)),
                ("callId"@, Doc::Number(call_id)),
                ("peerId"@, Doc::Text(peer_id)),
                ("senderDeviceId"@, Doc::Number(sender_device_id as u64)),
                ("opaque"@, Doc::Text(base64_text(opaque))),
                ("age"@, Doc::Number(age_ms)),
                ("senderIdentityKey"@, Doc::Text(base64_text(sender_identity_key))),
                ("receiverIdentityKey"@, Doc::Text(base64_text(receiver_identity_key))),
            ],
        ),
        ControlMessageView::ReceivedAnswer {
            opaque,
            sender_device_id,
            sender_identity_key,
            receiver_identity_key,
        } => Doc::Record(
            seq![
                ("type"@, Doc::Text("receivedAnswer"@)),
                ("opaque"@, Doc::Text(base64_text(opaque))),
                ("senderDeviceId"@, Doc::Number(sender_device_id as u64)),
                ("senderIdentityKey"@, Doc::Text(base64_text(sender_identity_key))),
                ("receiverIdentityKey"@, Doc::Text(base64_text(receiver_identity_key))),
            ],
        ),
        ControlMessageView::ReceivedIce { candidates } => Doc::Record(
            seq![
                ("type"@, Doc::Text("receivedIce"@)),
                ("candidates"@, payload_list(candidates)),
            ],
        ),
        ControlMessageView::Accept => Doc::Record(seq![("type"@, Doc::Text("accept"@))]),
        ControlMessageView::Hangup => Doc::Record(seq![("type"@, Doc::Text("hangup"@))]),
    }
}

proof fn lemma_text_list(texts: Seq<Seq<char>>)
    ensures
        text_list(texts).is_plain(1),
        text_list(texts).tree() == JsonView::Array(
            texts.map_values(|t: Seq<char>| JsonView::Text(t)),
        ),
{
    let items = text_list(texts)->List_0;
    assert forall|i: int| 0 <= i < items.len() implies (#[trigger] items[i]).is_plain(0) by {
        assert(items[i] == Doc::Text(texts[i]));
    }
    assert(Doc::item_trees(items) =~= texts.map_values(|t: Seq<char>| JsonView::Text(t)));
}

proof fn lemma_texts_among_texts(texts: Seq<Seq<char>>)
    ensures
        texts_among(texts.map_values(|t: Seq<char>| JsonView::Text(t))) == texts,
    decreases texts.len(),
{
    let items = texts.map_values(|t: Seq<char>| JsonView::Text(t));
    if texts.len() > 0 {
        lemma_texts_among_texts(texts.drop_last());
        assert(items.drop_last() =~= texts.drop_last().map_values(
            |t: Seq<char>| JsonView::Text(t),
        ));
        assert(texts_among(items) =~= texts);
    } else {
        assert(texts_among(items) =~= texts);
    }
}

proof fn lemma_payloads_among_payloads(payloads: Seq<Seq<u8>>)
    ensures
        payloads_among(
            payloads.map_values(|p: Seq<u8>| base64_text(p)).map_values(
                |t: Seq<char>| JsonView::Text(t),
            ),
        ) == payloads,
    decreases payloads.len(),
{
    let items = payloads.map_values(|p: Seq<u8>| base64_text(p)).map_values(
        |t: Seq<char>| JsonView::Text(t),
    );
    if payloads.len() > 0 {
        lemma_payloads_among_payloads(payloads.drop_last());
        lemma_payload_text(payloads.last());
        assert(items.drop_last() =~= payloads.drop_last().map_values(
            |p: Seq<u8>| base64_text(p),
        ).map_values(|t: Seq<char>| JsonView::Text(t)));
        assert(items.last() == JsonView::Text(base64_text(payloads.last())));
        assert(payloads_among(items) =~= payloads);
    } else {
        assert(payloads_among(items) =~= payloads);
    }
}

proof fn lemma_server_doc(server: IceServerView)
    ensures
        server_doc(server).is_plain(2),
        ice_server_of(server_doc(server).tree()) == server,
{
    reveal_strlit("username");
    reveal_strlit("password");
    reveal_strlit("urls");
    let members = server_doc(server)->Record_0;
    assert("username"@[0] != "password"@[0]);
    assert("username"@.len() == 8 && "password"@.len() == 8 && "urls"@.len() == 4);
    assert(distinct_members(members));
    lemma_record_members(members);
    lemma_text_list(server.urls);
    lemma_texts_among_texts(server.urls);
    assert(members[0].1.tree() is Text && members[0].1.is_plain(1));
    assert(members[1].1.tree() is Text && members[1].1.is_plain(1));
    assert(members[2].0 == "urls"@ && members[2].1.is_plain(1));
    assert(ice_server_of(server_doc(server).tree()) =~= server);
}

proof fn lemma_message_names()
    ensures
        "type"@.len() == 4,
        "token"@.len() == 5,
        "callId"@.len() == 6,
        "callId"@[0] == 'c',
        "peerId"@.len() == 6,
        "peerId"@[0] == 'p',
        "hideIp"@.len() == 6,
        "hideIp"@[0] == 'h',
        "opaque"@.len() == 6,
        "opaque"@[0] == 'o',
        "iceServers"@.len() == 10,
        "candidates"@.len() == 10,
        "senderDeviceId"@.len() == 14,
        "age"@.len() == 3,
        "senderIdentityKey"@.len() == 17,
        "receiverIdentityKey"@.len() == 19,
        needs_no_escape("type"@),
        needs_no_escape("token"@),
        needs_no_escape("callId"@),
        needs_no_escape("peerId"@),
        needs_no_escape("hideIp"@),
        needs_no_escape("opaque"@),
        needs_no_escape("iceServers"@),
        needs_no_escape("candidates"@),
        needs_no_escape("senderDeviceId"@),
        needs_no_escape("age"@),
        needs_no_escape("senderIdentityKey"@),
        needs_no_escape("receiverIdentityKey"@),
{
    reveal_strlit("type");
    reveal_strlit("token");
    reveal_strlit("callId");
    reveal_strlit("peerId");
    reveal_strlit("hideIp");
    reveal_strlit("opaque");
    reveal_strlit("iceServers");
    reveal_strlit("candidates");
    reveal_strlit("senderDeviceId");
    reveal_strlit("age");
    reveal_strlit("senderIdentityKey");
    reveal_strlit("receiverIdentityKey");
}

proof fn lemma_message_kinds()
    ensures
        "auth"@.len() == 4,
        "createOutgoingCall"@.len() == 18,
        "proceed"@.len() == 7,
        "receivedOffer"@.len() == 13,
        "receivedAnswer"@.len() == 14,
        "receivedIce"@.len() == 11,
        "accept"@.len() == 6,
        "accept"@[0] == 'a',
        "hangup"@.len() == 6,
        "hangup"@[0] == 'h',
{
    reveal_strlit("auth");
    reveal_strlit("createOutgoingCall");
    reveal_strlit("proceed");
    reveal_strlit("receivedOffer");
    reveal_strlit("receivedAnswer");
    reveal_strlit("receivedIce");
    reveal_strlit("accept");
    reveal_strlit("hangup");
}

/// The record of a message is plain, and stands for the message.
spec fn is_understood(message: ControlMessageView) -> bool {
    &&& message_doc(message).is_plain(127)
    &&& message_of(message_doc(message).tree()) == Ok::<ControlMessageView, MessageErrorView>(
        message,
    )
}

proof fn lemma_auth_doc(message: ControlMessageView)
    requires
        message is Auth,
    ensures
        is_understood(message),
{
    lemma_message_names();
    lemma_message_kinds();
    let doc = message_doc(message);
    let members = doc->Record_0;
    assert(distinct_members(members));
    lemma_record_members(members);
    assert(members[0].1.tree() is Text && members[0].1.is_plain(126));
    assert(members[1].1.tree() is Text && members[1].1.is_plain(126));
}

proof fn lemma_create_outgoing_call_doc(message: ControlMessageView)
    requires
        message is CreateOutgoingCall,
    ensures
        is_understood(message),
{
    lemma_message_names();
    lemma_message_kinds();
    let doc = message_doc(message);
    let members = doc->Record_0;
    assert(distinct_members(members));
    lemma_record_members(members);
    assert(members[0].1.tree() is Text && members[0].1.is_plain(126));
    assert(members[1].1.tree() is Number && members[1].1.is_plain(126));
    assert(members[2].1.tree() is Text && members[2].1.is_plain(126));
}

proof fn lemma_proceed_doc(message: ControlMessageView)
    requires
        message is Proceed,
    ensures
        is_understood(message),
{
    lemma_message_names();
    lemma_message_kinds();
    let doc = message_doc(message);
    let members = doc->Record_0;
    assert(distinct_members(members));
    lemma_record_members(members);
    assert(members[0].1.tree() is Text && members[0].1.is_plain(126));
    let ice_servers = message->Proceed_ice_servers;
    assert(members[1].1.tree() is Number && members[1].1.is_plain(126));
    assert(members[2].1.tree() is Bool && members[2].1.is_plain(126));
    let docs = members[3].1->List_0;
    assert forall|i: int| 0 <= i < docs.len() implies (#[trigger] docs[i]).is_plain(
        125,
    ) by {
        lemma_server_doc(ice_servers[i]);
        lemma_plain_is_monotone(docs[i], 2, 125);
    }
    assert(members[3].1.is_plain(126));
    let items = items_of(doc.tree(), "iceServers"@);
    assert(members[3].0 == "iceServers"@);
    assert(items =~= Doc::item_trees(docs));
    let servers = items.map_values(|server: JsonView| ice_server_of(server));
    assert forall|i: int| 0 <= i < ice_servers.len() implies servers[i]
        == ice_servers[i] by {
        lemma_server_doc(ice_servers[i]);
        assert(docs[i] == server_doc(ice_servers[i]));
    }
    assert(servers =~= ice_servers);
    let understood = message_of(doc.tree());
    assert(understood is Ok && understood->Ok_0 is Proceed);
    assert(understood->Ok_0->Proceed_ice_servers =~= ice_servers);
    assert(understood->Ok_0->Proceed_hide_ip == message->Proceed_hide_ip);
}

#[verifier::spinoff_prover]
proof fn lemma_received_offer_doc(message: ControlMessageView)
    requires
        message is ReceivedOffer,
    ensures
        is_understood(message),
{
    lemma_message_names();
    lemma_message_kinds();
    let doc = message_doc(message);
    let members = doc->Record_0;
    assert(distinct_members(members));
    lemma_record_members(members);
    let tree = doc.tree();
    assert(tree.member("type"@) == members[0].1.tree()) by {
        assert(members[0].0 == "type"@);
    }
    assert(tree.member("callId"@) == members[1].1.tree()) by {
        assert(members[1].0 == "callId"@);
    }
    assert(tree.member("peerId"@) == members[2].1.tree()) by {
        assert(members[2].0 == "peerId"@);
    }
    assert(tree.member("senderDeviceId"@) == members[3].1.tree()) by {
        assert(members[3].0 == "senderDeviceId"@);
    }
    assert(tree.member("opaque"@) == members[4].1.tree()) by {
        assert(members[4].0 == "opaque"@);
    }
    assert(tree.member("age"@) == members[5].1.tree()) by {
        assert(members[5].0 == "age"@);
    }
    assert(tree.member("senderIdentityKey"@) == members[6].1.tree()) by {
        assert(members[6].0 == "senderIdentityKey"@);
    }
    assert(tree.member("receiverIdentityKey"@) == members[7].1.tree()) by {
        assert(members[7].0 == "receiverIdentityKey"@);
    }
    assert(members[0].1.tree() is Text && members[0].1.is_plain(126));
    let opaque = message->ReceivedOffer_opaque;
    let sender_identity_key = message->ReceivedOffer_sender_identity_key;
    let receiver_identity_key = message->ReceivedOffer_receiver_identity_key;
    lemma_payload_text(opaque);
    lemma_payload_text(sender_identity_key);
    lemma_payload_text(receiver_identity_key);
    assert(members[1].1.tree() is Number && members[1].1.is_plain(126));
    assert(members[2].1.tree() is Text && members[2].1.is_plain(126));
    assert(members[3].1.tree() is Number && members[3].1.is_plain(126));
    assert(members[4].1.tree() is Text && members[4].1.is_plain(126));
    assert(members[5].1.tree() is Number && members[5].1.is_plain(126));
    assert(members[6].1.tree() is Text && members[6].1.is_plain(126));
    assert(members[7].1.tree() is Text && members[7].1.is_plain(126));
}

#[verifier::spinoff_prover]
proof fn lemma_received_answer_doc(message: ControlMessageView)
    requires
        message is ReceivedAnswer,
    ensures
        is_understood(message),
{
    lemma_message_names();
    lemma_message_kinds();
    let doc = message_doc(message);
    let members = doc->Record_0;
    assert(distinct_members(members));
    lemma_record_members(members);
    let tree = doc.tree();
    assert(tree.member("type"@) == members[0].1.tree()) by {
        assert(members[0].0 == "type"@);
    }
    assert(tree.member("opaque"@) == members[1].1.tree()) by {
        assert(members[1].0 == "opaque"@);
    }
    assert(tree.member("senderDeviceId"@) == members[2].1.tree()) by {
        assert(members[2].0 == "senderDeviceId"@);
    }
    assert(tree.member("senderIdentityKey"@) == members[3].1.tree()) by {
        assert(members[3].0 == "senderIdentityKey"@);
    }
    assert(tree.member("receiverIdentityKey"@) == members[4].1.tree()) by {
        assert(members[4].0 == "receiverIdentityKey"@);
    }
    assert(tree.member("type"@).as_text() == Some("receivedAnswer"@));
    let opaque = message->ReceivedAnswer_opaque;
    let sender_identity_key = message->ReceivedAnswer_sender_identity_key;
    let receiver_identity_key = message->ReceivedAnswer_receiver_identity_key;
    lemma_payload_text(opaque);
    lemma_payload_text(sender_identity_key);
    lemma_payload_text(receiver_identity_key);
    assert(tree.member("opaque"@).as_text() == Some(base64_text(opaque)));
    assert(tree.member("senderDeviceId"@).as_number() is Some);
    assert(tree.member("senderIdentityKey"@).as_text() == Some(base64_text(sender_identity_key)));
    assert(tree.member("receiverIdentityKey"@).as_text() == Some(
        base64_text(receiver_identity_key),
    ));
    assert(doc.is_plain(127)) by {
        assert(forall|i: int| 0 <= i < members.len() ==> (#[trigger] members[i]).1.is_plain(126));
    }
}

proof fn lemma_received_ice_doc(message: ControlMessageView)
    requires
        message is ReceivedIce,
    ensures
        is_understood(message),
{
    lemma_message_names();
    lemma_message_kinds();
    let doc = message_doc(message);
    let members = doc->Record_0;
    assert(distinct_members(members));
    lemma_record_members(members);
    assert(members[0].1.tree() is Text && members[0].1.is_plain(126));
    let candidates = message->ReceivedIce_candidates;
    let texts = candidates.map_values(|p: Seq<u8>| base64_text(p));
    lemma_text_list(texts);
    lemma_payloads_among_payloads(candidates);
    assert(members[1].0 == "candidates"@);
    lemma_plain_is_monotone(members[1].1, 1, 126);
}

proof fn lemma_accept_doc(message: ControlMessageView)
    requires
        message is Accept,
    ensures
        is_understood(message),
{
    lemma_message_names();
    lemma_message_kinds();
    let doc = message_doc(message);
    let members = doc->Record_0;
    assert(distinct_members(members));
    lemma_record_members(members);
    assert(members[0].1.tree() is Text && members[0].1.is_plain(126));
}

proof fn lemma_hangup_doc(message: ControlMessageView)
    requires
        message is Hangup,
    ensures
        is_understood(message),
{
    lemma_message_names();
    lemma_message_kinds();
    let doc = message_doc(message);
    let members = doc->Record_0;
    assert(distinct_members(members));
    lemma_record_members(members);
    assert(members[0].1.tree() is Text && members[0].1.is_plain(126));
}

/// A document nested at most `depth` deep is nested at most `more` deep.
proof fn lemma_plain_is_monotone(doc: Doc, depth: nat, more: nat)
    requires
        doc.is_plain(depth),
        depth <= more,
    ensures
        doc.is_plain(more),
    decreases doc,
{
    match doc {
        Doc::List(items) => {
            assert forall|i: int| 0 <= i < items.len() implies (#[trigger] items[i]).is_plain(
                (more - 1) as nat,
            ) by {
                lemma_plain_is_monotone(items[i], (depth - 1) as nat, (more - 1) as nat);
            }
        },
        Doc::Record(members) => {
            assert forall|i: int|
                #![trigger members[i]]
                0 <= i < members.len() implies needs_no_escape(members[i].0)
                && members[i].1.is_plain((more - 1) as nat) by {
                lemma_plain_is_monotone(members[i].1, (depth - 1) as nat, (more - 1) as nat);
            }
        },
        _ => {},
    }
}

/// A control message that is written as a compact line is understood as it was meant, whatever its
/// texts hold: what the JSON reader gives for the line stands for the message, payloads and all.
pub proof fn law_message_line_is_understood(message: ControlMessageView, read: Option<JsonView>)
    requires
        is_reading_of(read, message_doc(message).text()),
    ensures
        line_meaning(read) == Ok::<ControlMessageView, MessageErrorView>(message),
{
    match message {
        ControlMessageView::Auth { .. } => {
            lemma_auth_doc(message);
        },
        ControlMessageView::CreateOutgoingCall { .. } => {
            lemma_create_outgoing_call_doc(message);
        },
        ControlMessageView::Proceed { .. } => {
            lemma_proceed_doc(message);
        },
        ControlMessageView::ReceivedOffer { .. } => {
            lemma_received_offer_doc(message);
        },
        ControlMessageView::ReceivedAnswer { .. } => {
            lemma_received_answer_doc(message);
        },
        ControlMessageView::ReceivedIce { .. } => {
            lemma_received_ice_doc(message);
        },
        ControlMessageView::Accept => {
            lemma_accept_doc(message);
        },
        ControlMessageView::Hangup => {
            lemma_hangup_doc(message);
        },
    }
    assert(read == Some(message_doc(message).tree()));
}

/// `value` is the text of a member, or `default` where the member is no text.
pub open spec fn is_text_or(member: JsonView, default: Seq<char>, value: Seq<char>) -> bool {
    &&& member matches JsonView::Text(text) ==> value == text
    &&& !(member is Text) ==> value == default
}

/// `value` is the number of a member, or `default` where the member is no unsigned 64-bit number.
pub open spec fn is_number_or(member: JsonView, default: u64, value: u64) -> bool {
    &&& member matches JsonView::Number(Some(number)) ==> value == number
    &&& !(member matches JsonView::Number(Some(_))) ==> value == default
}

/// `value` is the number of a member modulo 2^32, or 1 where the member is no unsigned 64-bit
/// number.
pub open spec fn is_device_or_one(member: JsonView, value: u32) -> bool {
    &&& member matches JsonView::Number(Some(number)) ==> value == number % 4294967296
    &&& !(member matches JsonView::Number(Some(_))) ==> value == 1
}

/// `value` is what a member is the base64 text of, or nothing where it is no such text.
pub open spec fn is_payload_or_none(member: JsonView, value: Seq<u8>) -> bool {
    ||| member == JsonView::Text(base64_text(value))
    ||| value.len() == 0 && forall|bytes: Seq<u8>|
        member != JsonView::Text(#[trigger] base64_text(bytes))
}

proof fn lemma_payload_or_none(doc: JsonView, name: Seq<char>)
    ensures
        is_payload_or_none(doc.member(name), payload_of(doc, name)),
{
    let text = text_or(doc, name, seq![]);
    if doc.member(name) is Text {
        if exists|bytes: Seq<u8>| base64_text(bytes) == text {
            let bytes = choose|bytes: Seq<u8>| base64_text(bytes) == text;
            assert(base64_bytes(text) is Some);
            lemma_payload_text(bytes);
        } else {
            assert forall|bytes: Seq<u8>| doc.member(name) != JsonView::Text(
                #[trigger] base64_text(bytes),
            ) by {}
        }
    } else {
        let none: Seq<u8> = seq![];
        assert(base64_text(none) =~= text);
        lemma_payload_text(none);
    }
}

/// What each member of a message is taken from, and what it is where the document has no such
/// member, or one of another kind. The type decides which message it is; a type that is none of the
/// eight is an error that tells the type, and so is a missing one, as the empty type.
pub proof fn law_members_of_a_message(doc: JsonView, kind: Seq<char>)
    requires
        is_text_or(doc.member("type"@), seq![], kind),
    ensures
        match message_of(doc) {
            Ok(ControlMessageView::Auth { token }) => {
                &&& kind == "auth"@
                &&& is_text_or(doc.member("token"@), seq![], token)
            },
            Ok(ControlMessageView::CreateOutgoingCall { call_id, peer_id }) => {
                &&& kind == "createOutgoingCall"@
                &&& is_number_or(doc.member("callId"@), 0, call_id)
                &&& is_text_or(doc.member("peerId"@), seq![], peer_id)
            },
            Ok(ControlMessageView::Proceed { call_id, ice_servers, hide_ip }) => {
                &&& kind == "proceed"@
                &&& is_number_or(doc.member("callId"@), 0, call_id)
                &&& hide_ip <==> doc.member("hideIp"@) == JsonView::Bool(true)
                &&& !(doc.member("iceServers"@) is Array) ==> ice_servers.len() == 0
                &&& doc.member("iceServers"@) matches JsonView::Array(items) ==> {
                    &&& ice_servers.len() == items.len()
                    &&& forall|i: int|
                        #![trigger ice_servers[i]]
                        0 <= i < items.len() ==> {
                            let server = ice_servers[i];
                            &&& is_text_or(items[i].member("username"@), seq![], server.username)
                            &&& is_text_or(items[i].member("password"@), seq![], server.password)
                            &&& !(items[i].member("urls"@) is Array) ==> server.urls.len() == 0
                            &&& items[i].member("urls"@) matches JsonView::Array(urls)
                                ==> server.urls == texts_among(urls)
                        }
                }
            },
            Ok(
                ControlMessageView::ReceivedOffer {
                    call_id,
                    peer_id,
                    sender_device_id,
                    opaque,
                    age_ms,
                    sender_identity_key,
                    receiver_identity_key,
                },
            ) => {
                &&& kind == "receivedOffer"@
                &&& is_number_or(doc.member("callId"@), 0, call_id)
                &&& is_text_or(doc.member("peerId"@), "remote"@, peer_id)
                &&& is_device_or_one(doc.member("senderDeviceId"@), sender_device_id)
                &&& is_payload_or_none(doc.member("opaque"@), opaque)
                &&& is_number_or(doc.member("age"@), 0, age_ms)
                &&& is_payload_or_none(doc.member("senderIdentityKey"@), sender_identity_key)
                &&& is_payload_or_none(doc.member("receiverIdentityKey"@), receiver_identity_key)
            },
            Ok(
                ControlMessageView::ReceivedAnswer {
                    opaque,
                    sender_device_id,
                    sender_identity_key,
                    receiver_identity_key,
                },
            ) => {
                &&& kind == "receivedAnswer"@
                &&& is_payload_or_none(doc.member("opaque"@), opaque)
                &&& is_device_or_one(doc.member("senderDeviceId"@), sender_device_id)
                &&& is_payload_or_none(doc.member("senderIdentityKey"@), sender_identity_key)
                &&& is_payload_or_none(doc.member("receiverIdentityKey"@), receiver_identity_key)
            },
            Ok(ControlMessageView::ReceivedIce { candidates }) => {
                &&& kind == "receivedIce"@
                &&& !(doc.member("candidates"@) is Array) ==> candidates.len() == 0
                &&& doc.member("candidates"@) matches JsonView::Array(items) ==> candidates
                    == payloads_among(items)
            },
            Ok(ControlMessageView::Accept) => kind == "accept"@,
            Ok(ControlMessageView::Hangup) => kind == "hangup"@,
            Err(error) => {
                &&& error == MessageErrorView::UnknownType(kind)
                &&& kind != "auth"@ && kind != "createOutgoingCall"@ && kind != "proceed"@
                &&& kind != "receivedOffer"@ && kind != "receivedAnswer"@
                &&& kind != "receivedIce"@ && kind != "accept"@ && kind != "hangup"@
            },
        },
{
    lemma_message_kinds();
    lemma_payload_or_none(doc, "opaque"@);
    lemma_payload_or_none(doc, "senderIdentityKey"@);
    lemma_payload_or_none(doc, "receiverIdentityKey"@);
}

/// What a line means is what the document read from it means; a line that no document is read from
/// is an error of its own.
pub proof fn law_meaning_is_of_the_document(doc: JsonView)
    ensures
        line_meaning(Some(doc)) == message_of(doc),
        line_meaning(None) == Err::<ControlMessageView, MessageErrorView>(
            MessageErrorView::InvalidJson,
        ),
{
}

/// Texts are found part by part, in order: an item that is a text counts, any other does not.
pub proof fn law_texts_are_found_in_order(a: Seq<JsonView>, b: Seq<JsonView>, item: JsonView)
    ensures
        texts_among(a + b) == texts_among(a) + texts_among(b),
        item matches JsonView::Text(text) ==> texts_among(seq![item]) == seq![text],
        !(item is Text) ==> texts_among(seq![item]).len() == 0,
        texts_among(seq![]).len() == 0,
    decreases b.len(),
{
    let none: Seq<JsonView> = seq![];
    assert(seq![item].drop_last() =~= none);
    assert(texts_among(none) =~= seq![]);
    if item is Text {
        assert(texts_among(seq![item]) =~= seq![item->Text_0]);
    }
    if b.len() == 0 {
        assert(a + b =~= a);
        assert(texts_among(a) + texts_among(b) =~= texts_among(a));
    } else {
        law_texts_are_found_in_order(a, b.drop_last(), item);
        assert((a + b).drop_last() =~= a + b.drop_last());
        assert((a + b).last() == b.last());
        assert(texts_among(a + b) =~= texts_among(a) + texts_among(b));
    }
}

/// Payloads are found part by part, in order: an item that is the base64 text of some bytes counts
/// as those, any other does not count.
pub proof fn law_payloads_are_found_in_order(
    a: Seq<JsonView>,
    b: Seq<JsonView>,
    item: JsonView,
    bytes: Seq<u8>,
)
    ensures
        payloads_among(a + b) == payloads_among(a) + payloads_among(b),
        item == JsonView::Text(base64_text(bytes)) ==> payloads_among(seq![item]) == seq![bytes],
        (forall|any: Seq<u8>| item != JsonView::Text(#[trigger] base64_text(any)))
            ==> payloads_among(seq![item]).len() == 0,
        payloads_among(seq![]).len() == 0,
    decreases b.len(),
{
    let none: Seq<JsonView> = seq![];
    assert(seq![item].drop_last() =~= none);
    assert(payloads_among(none) =~= seq![]);
    if item == JsonView::Text(base64_text(bytes)) {
        lemma_payload_text(bytes);
        assert(payloads_among(seq![item]) =~= seq![bytes]);
    }
    if b.len() == 0 {
        assert(a + b =~= a);
        assert(payloads_among(a) + payloads_among(b) =~= payloads_among(a));
    } else {
        law_payloads_are_found_in_order(a, b.drop_last(), item, bytes);
        assert((a + b).drop_last() =~= a + b.drop_last());
        assert((a + b).last() == b.last());
        assert(payloads_among(a + b) =~= payloads_among(a) + payloads_among(b));
    }
}

} // verus!
