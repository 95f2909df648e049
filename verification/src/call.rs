//! What the tunnel has the call engine do for each message of the parent process.

use crate::control::{error_doc, error_line};
use crate::document::is_one_line;
use crate::line_text::error_text;
use crate::message::{
    blobs, server_views, ControlMessage, ControlMessageView, IceServerConfig, IceServerView,
};
use crate::text::same_text;
use vstd::prelude::*;

verus! {

/// The one call of a tunnel process.
#[derive(Debug)]
pub struct CallDriver {
    /// The peer that the last outgoing call or received offer named.
    pub active_peer_id: String,
    pub call_id: u64,
    pub local_device_id: u32,
}

/// What the call engine is to do.
#[derive(Debug)]
pub enum CallAction {
    /// Nothing: the parent process is authenticated already.
    Ignore,
    CreateOutgoingCall { call_id: u64, peer_id: String, local_device_id: u32 },
    Proceed { call_id: u64, ice_servers: Vec<IceServerConfig>, hide_ip: bool },
    ReceiveOffer {
        call_id: u64,
        peer_id: String,
        opaque: Vec<u8>,
        age_ms: u64,
        sender_device_id: u32,
        receiver_device_id: u32,
        sender_identity_key: Vec<u8>,
        receiver_identity_key: Vec<u8>,
    },
    ReceiveAnswer {
        call_id: u64,
        peer_id: String,
        opaque: Vec<u8>,
        sender_device_id: u32,
        sender_identity_key: Vec<u8>,
        receiver_identity_key: Vec<u8>,
    },
    ReceiveIce { call_id: u64, peer_id: String, candidates: Vec<Vec<u8>>, sender_device_id: u32 },
    Accept { call_id: u64 },
    /// End the call, and the tunnel with it.
    Hangup,
}

pub struct CallDriverView {
    pub active_peer_id: Seq<char>,
    pub call_id: u64,
    pub local_device_id: u32,
}

pub enum CallActionView {
    Ignore,
    CreateOutgoingCall { call_id: u64, peer_id: Seq<char>, local_device_id: u32 },
    Proceed { call_id: u64, ice_servers: Seq<IceServerView>, hide_ip: bool },
    ReceiveOffer {
        call_id: u64,
        peer_id: Seq<char>,
        opaque: Seq<u8>,
        age_ms: u64,
        sender_device_id: u32,
        receiver_device_id: u32,
        sender_identity_key: Seq<u8>,
        receiver_identity_key: Seq<u8>,
    },
    ReceiveAnswer {
        call_id: u64,
        peer_id: Seq<char>,
        opaque: Seq<u8>,
        sender_device_id: u32,
        sender_identity_key: Seq<u8>,
        receiver_identity_key: Seq<u8>,
    },
    ReceiveIce {
        call_id: u64,
        peer_id: Seq<char>,
        candidates: Seq<Seq<u8>>,
        sender_device_id: u32,
    },
    Accept { call_id: u64 },
    Hangup,
}

impl View for CallDriver {
    type V = CallDriverView;

    open spec fn view(&self) -> CallDriverView {
        CallDriverView {
            active_peer_id: self.active_peer_id@,
            call_id: self.call_id,
            local_device_id: self.local_device_id,
        }
    }
}

impl View for CallAction {
    type V = CallActionView;

    open spec fn view(&self) -> CallActionView {
        match *self {
            CallAction::Ignore => CallActionView::Ignore,
            CallAction::CreateOutgoingCall { call_id, peer_id, local_device_id } =>
                CallActionView::CreateOutgoingCall { call_id, peer_id: peer_id@, local_device_id },
            CallAction::Proceed { call_id, ice_servers, hide_ip } => CallActionView::Proceed {
                call_id,
                ice_servers: server_views(ice_servers@),
                hide_ip,
            },
            CallAction::ReceiveOffer {
                call_id,
                peer_id,
                opaque,
                age_ms,
                sender_device_id,
                receiver_device_id,
                sender_identity_key,
                receiver_identity_key,
            } => CallActionView::ReceiveOffer {
                call_id,
                peer_id: peer_id@,
                opaque: opaque@,
                age_ms,
                sender_device_id,
                receiver_device_id,
                sender_identity_key: sender_identity_key@,
                receiver_identity_key: receiver_identity_key@,
            },
            CallAction::ReceiveAnswer {
                call_id,
                peer_id,
                opaque,
                sender_device_id,
                sender_identity_key,
                receiver_identity_key,
            } => CallActionView::ReceiveAnswer {
                call_id,
                peer_id: peer_id@,
                opaque: opaque@,
                sender_device_id,
                sender_identity_key: sender_identity_key@,
                receiver_identity_key: receiver_identity_key@,
            },
            CallAction::ReceiveIce { call_id, peer_id, candidates, sender_device_id } =>
                CallActionView::ReceiveIce {
                    call_id,
                    peer_id: peer_id@,
                    candidates: blobs(candidates@),
                    sender_device_id,
                },
            CallAction::Accept { call_id } => CallActionView::Accept { call_id },
            CallAction::Hangup => CallActionView::Hangup,
        }
    }
}

impl CallDriverView {
    pub open spec fn fresh(call_id: u64, local_device_id: u32) -> Self {
        CallDriverView { active_peer_id: "remote"@, call_id, local_device_id }
    }

    /// The driver after a message: an outgoing call or a received offer names the peer.
    pub open spec fn after(self, message: ControlMessageView) -> Self {
        match message {
            ControlMessageView::CreateOutgoingCall { peer_id, .. } => CallDriverView {
                active_peer_id: peer_id,
                ..self
            },
            ControlMessageView::ReceivedOffer { peer_id, .. } => CallDriverView {
                active_peer_id: peer_id,
                ..self
            },
            _ => self,
        }
    }

    /// What a message has the call engine do.
    pub open spec fn action(self, message: ControlMessageView) -> CallActionView {
        match message {
            ControlMessageView::Auth { .. } => CallActionView::Ignore,
            ControlMessageView::CreateOutgoingCall { call_id, peer_id } =>
                CallActionView::CreateOutgoingCall {
                    call_id,
                    peer_id,
                    local_device_id: self.local_device_id,
                },
            ControlMessageView::Proceed { call_id, ice_servers, hide_ip } =>
                CallActionView::Proceed { call_id, ice_servers, hide_ip },
            ControlMessageView::ReceivedOffer {
                call_id,
                peer_id,
                sender_device_id,
                opaque,
                age_ms,
                sender_identity_key,
                receiver_identity_key,
            } => CallActionView::ReceiveOffer {
                call_id,
                peer_id,
                opaque,
                age_ms,
                sender_device_id,
                receiver_device_id: self.local_device_id,
                sender_identity_key,
                receiver_identity_key,
            },
            ControlMessageView::ReceivedAnswer {
                opaque,
                sender_device_id,
                sender_identity_key,
                receiver_identity_key,
            } => CallActionView::ReceiveAnswer {
                call_id: self.call_id,
                peer_id: self.active_peer_id,
                opaque,
                sender_device_id,
                sender_identity_key,
                receiver_identity_key,
            },
            ControlMessageView::ReceivedIce { candidates } => CallActionView::ReceiveIce {
                call_id: self.call_id,
                peer_id: self.active_peer_id,
                candidates,
                sender_device_id: 1,
            },
            ControlMessageView::Accept => CallActionView::Accept { call_id: self.call_id },
            ControlMessageView::Hangup => CallActionView::Hangup,
        }
    }
}

impl CallDriver {
    /// A driver for the call `call_id` on the device `local_device_id`.
    pub fn new(call_id: u64, local_device_id: u32) -> (driver: Self)
        ensures
            driver@ == CallDriverView::fresh(call_id, local_device_id),
    {
        CallDriver { active_peer_id: "remote".to_string(), call_id, local_device_id }
    }

    /// Takes a message of the parent process.
    pub fn on_message(&mut self, message: ControlMessage) -> (action: CallAction)
        ensures
            final(self)@ == old(self)@.after(message@),
            action@ == old(self)@.action(message@),
    {
        match message {
            ControlMessage::Auth { token: _ } => CallAction::Ignore,
            ControlMessage::CreateOutgoingCall { call_id, peer_id } => {
                self.active_peer_id = peer_id.clone();
                CallAction::CreateOutgoingCall {
                    call_id,
                    peer_id,
                    local_device_id: self.local_device_id,
                }
            },
            ControlMessage::Proceed { call_id, ice_servers, hide_ip } => CallAction::Proceed {
                call_id,
                ice_servers,
                hide_ip,
            },
            ControlMessage::ReceivedOffer {
                call_id,
                peer_id,
                sender_device_id,
                opaque,
                age_ms,
                sender_identity_key,
                receiver_identity_key,
            } => {
                self.active_peer_id = peer_id.clone();
                CallAction::ReceiveOffer {
                    call_id,
                    peer_id,
                    opaque,
                    age_ms,
                    sender_device_id,
                    receiver_device_id: self.local_device_id,
                    sender_identity_key,
                    receiver_identity_key,
                }
            },
            ControlMessage::ReceivedAnswer {
                opaque,
                sender_device_id,
                sender_identity_key,
                receiver_identity_key,
            } => CallAction::ReceiveAnswer {
                call_id: self.call_id,
                peer_id: self.active_peer_id.clone(),
                opaque,
                sender_device_id,
                sender_identity_key,
                receiver_identity_key,
            },
            ControlMessage::ReceivedIce { candidates } => CallAction::ReceiveIce {
                call_id: self.call_id,
                peer_id: self.active_peer_id.clone(),
                candidates,
                sender_device_id: 1,
            },
            ControlMessage::Accept => CallAction::Accept { call_id: self.call_id },
            ControlMessage::Hangup => CallAction::Hangup,
        }
    }
}

/// The line that tells the parent process that an outgoing call could not be created.
pub fn create_failed_line(error: &str) -> (line: String)
    ensures
        line@ == error_text("failed to create outgoing call: "@ + error@),
        line@ == error_doc("failed to create outgoing call: "@ + error@).text(),
        is_one_line(line@),
{
    let mut message = "failed to create outgoing call: ".to_string();
    message.append(error);
    error_line(message.as_str())
}

/// The line that tells the parent process that a call could not proceed.
pub fn proceed_failed_line(error: &str) -> (line: String)
    ensures
        line@ == error_text("failed to proceed: "@ + error@),
        line@ == error_doc("failed to proceed: "@ + error@).text(),
        is_one_line(line@),
{
    let mut message = "failed to proceed: ".to_string();
    message.append(error);
    error_line(message.as_str())
}

/// `index` is that of the first of `names` that is `wanted`.
pub open spec fn is_first(names: Seq<String>, wanted: Seq<char>, index: int) -> bool {
    &&& 0 <= index < names.len()
    &&& names[index]@ == wanted
    &&& forall|j: int| 0 <= j < index ==> (#[trigger] names[j])@ != wanted
}

/// The index by which the call engine knows the device `wanted`: that of the first device of that
/// name, in 16 bits.
pub fn device_index(names: &Vec<String>, wanted: &str) -> (index: Option<u16>)
    ensures
        match index {
            Some(i) => exists|first: int| #[trigger]
                is_first(names@, wanted@, first) && i == first % 0x1_0000,
            None => forall|j: int| 0 <= j < names@.len() ==> (#[trigger] names@[j])@ != wanted@,
        },
{
    let mut i: usize = 0;
    while i < names.len()
        invariant
            i <= names.len(),
            forall|j: int| 0 <= j < i ==> (#[trigger] names@[j])@ != wanted@,
        decreases names.len() - i,
    {
        if same_text(names[i].as_str(), wanted) {
            assert(is_first(names@, wanted@, i as int));
            return Some((i % 0x1_0000) as u16);
        }
        i += 1;
    }
    None
}

/// Whether the call engine has found the devices: how many it knows of each kind, or nothing where
/// it could not tell.
pub fn devices_found(playout_devices: Option<usize>, recording_devices: Option<usize>) -> (found:
    bool)
    ensures
        found <==> (playout_devices matches Some(n) && n > 0) && (recording_devices matches Some(
            m,
        ) && m > 0),
{
    let playout = match playout_devices {
        Some(n) => n > 0,
        None => false,
    };
    let recording = match recording_devices {
        Some(n) => n > 0,
        None => false,
    };
    playout && recording
}

/// A driver after some messages.
pub open spec fn driver_after(
    start: CallDriverView,
    messages: Seq<ControlMessageView>,
) -> CallDriverView
    decreases messages.len(),
{
    if messages.len() == 0 {
        start
    } else {
        driver_after(start, messages.drop_last()).after(messages.last())
    }
}

/// The peer that a message names, if it names one.
pub open spec fn named_peer(message: ControlMessageView) -> Option<Seq<char>> {
    match message {
        ControlMessageView::CreateOutgoingCall { peer_id, .. } => Some(peer_id),
        ControlMessageView::ReceivedOffer { peer_id, .. } => Some(peer_id),
        _ => None,
    }
}

/// The call engine hears of one peer only: from the message that names a peer until another one
/// does, every answer and every candidate goes to that peer, and the call id stays the one of the
/// configuration.
pub proof fn law_one_peer_at_a_time(
    start: CallDriverView,
    before: Seq<ControlMessageView>,
    naming: ControlMessageView,
    after: Seq<ControlMessageView>,
    message: ControlMessageView,
)
    requires
        named_peer(naming) is Some,
        forall|i: int| 0 <= i < after.len() ==> named_peer(#[trigger] after[i]) is None,
    ensures
        ({
            let driver = driver_after(start, before.push(naming) + after);
            &&& driver.active_peer_id == named_peer(naming)->0
            &&& driver.call_id == start.call_id
            &&& driver.local_device_id == start.local_device_id
            &&& driver.action(message) matches CallActionView::ReceiveAnswer {
                call_id,
                peer_id,
                ..
            } ==> peer_id == named_peer(naming)->0 && call_id == start.call_id
            &&& driver.action(message) matches CallActionView::ReceiveIce {
                call_id,
                peer_id,
                ..
            } ==> peer_id == named_peer(naming)->0 && call_id == start.call_id
        }),
    decreases after.len(),
{
    lemma_ids_stay(start, before.push(naming) + after);
    if after.len() == 0 {
        assert(before.push(naming) + after =~= before.push(naming));
        assert(before.push(naming).drop_last() =~= before);
    } else {
        let front = after.drop_last();
        assert forall|i: int| 0 <= i < front.len() implies named_peer(
            #[trigger] front[i],
        ) is None by {
            assert(front[i] == after[i]);
        }
        assert((before.push(naming) + after).drop_last() =~= before.push(naming) + front);
        assert(named_peer(after[after.len() - 1]) is None);
        law_one_peer_at_a_time(start, before, naming, front, message);
    }
}

/// Before any message names a peer, the peer is `remote`.
pub proof fn law_peer_is_remote_at_first(
    call_id: u64,
    local_device_id: u32,
    messages: Seq<ControlMessageView>,
)
    requires
        forall|i: int| 0 <= i < messages.len() ==> named_peer(#[trigger] messages[i]) is None,
    ensures
        driver_after(CallDriverView::fresh(call_id, local_device_id), messages)
            == CallDriverView::fresh(call_id, local_device_id),
        CallDriverView::fresh(call_id, local_device_id) == (CallDriverView {
            active_peer_id: "remote"@,
            call_id,
            local_device_id,
        }),
    decreases messages.len(),
{
    if messages.len() > 0 {
        let front = messages.drop_last();
        assert forall|i: int| 0 <= i < front.len() implies named_peer(
            #[trigger] front[i],
        ) is None by {
            assert(front[i] == messages[i]);
        }
        assert(named_peer(messages[messages.len() - 1]) is None);
        law_peer_is_remote_at_first(call_id, local_device_id, front);
    }
}

proof fn lemma_ids_stay(start: CallDriverView, messages: Seq<ControlMessageView>)
    ensures
        driver_after(start, messages).call_id == start.call_id,
        driver_after(start, messages).local_device_id == start.local_device_id,
    decreases messages.len(),
{
    if messages.len() > 0 {
        lemma_ids_stay(start, messages.drop_last());
    }
}

/// Each message has the call engine do what it says, with what it carries: every member of the
/// action that the message has too is the message's own. The call id and the peer that a message
/// does not carry are the driver's, and so is the local device; candidates come from device 1. A
/// second auth message has nothing done.
pub proof fn law_action_carries_the_message(driver: CallDriverView, message: ControlMessageView)
    ensures
        match driver.action(message) {
            CallActionView::Ignore => message is Auth,
            CallActionView::CreateOutgoingCall { call_id, peer_id, local_device_id } => {
                &&& message == (ControlMessageView::CreateOutgoingCall { call_id, peer_id })
                &&& local_device_id == driver.local_device_id
            },
            CallActionView::Proceed { call_id, ice_servers, hide_ip } => message == (
            ControlMessageView::Proceed { call_id, ice_servers, hide_ip }),
            CallActionView::ReceiveOffer {
                call_id,
                peer_id,
                opaque,
                age_ms,
                sender_device_id,
                receiver_device_id,
                sender_identity_key,
                receiver_identity_key,
            } => {
                &&& message == (ControlMessageView::ReceivedOffer {
                    call_id,
                    peer_id,
                    sender_device_id,
                    opaque,
                    age_ms,
                    sender_identity_key,
                    receiver_identity_key,
                })
                &&& receiver_device_id == driver.local_device_id
            },
            CallActionView::ReceiveAnswer {
                call_id,
                peer_id,
                opaque,
                sender_device_id,
                sender_identity_key,
                receiver_identity_key,
            } => {
                &&& message == (ControlMessageView::ReceivedAnswer {
                    opaque,
                    sender_device_id,
                    sender_identity_key,
                    receiver_identity_key,
                })
                &&& call_id == driver.call_id
                &&& peer_id == driver.active_peer_id
            },
            CallActionView::ReceiveIce { call_id, peer_id, candidates, sender_device_id } => {
                &&& message == (ControlMessageView::ReceivedIce { candidates })
                &&& call_id == driver.call_id
                &&& peer_id == driver.active_peer_id
                &&& sender_device_id == 1
            },
            CallActionView::Accept { call_id } => {
                &&& message is Accept
                &&& call_id == driver.call_id
            },
            CallActionView::Hangup => message is Hangup,
        },
{
}

/// What a message leaves behind: an outgoing call and a received offer name the peer from then on,
/// every other message leaves the driver as it was, and none changes the call id or the device.
pub proof fn law_message_leaves_all_but_the_peer(
    driver: CallDriverView,
    message: ControlMessageView,
)
    ensures
        driver.after(message).call_id == driver.call_id,
        driver.after(message).local_device_id == driver.local_device_id,
        message matches ControlMessageView::CreateOutgoingCall { peer_id, .. } ==> driver.after(
            message,
        ).active_peer_id == peer_id,
        message matches ControlMessageView::ReceivedOffer { peer_id, .. } ==> driver.after(
            message,
        ).active_peer_id == peer_id,
        !(message is CreateOutgoingCall || message is ReceivedOffer) ==> driver.after(message)
            == driver,
{
}

/// No device of the wanted name stands before the first, and there is but one first.
pub proof fn law_first_device_is_the_first(names: Seq<String>, wanted: Seq<char>, a: int, b: int)
    requires
        is_first(names, wanted, a),
        0 <= b < names.len(),
        names[b]@ == wanted,
    ensures
        0 <= a <= b,
        names[a]@ == wanted,
        is_first(names, wanted, b) ==> a == b,
{
}

/// A driver and an action show what they hold, member by member.
pub proof fn law_action_shows_what_it_holds(driver: CallDriver, action: CallAction)
    ensures
        driver@.active_peer_id == driver.active_peer_id@,
        driver@.call_id == driver.call_id,
        driver@.local_device_id == driver.local_device_id,
        match action {
            CallAction::Ignore => action@ is Ignore,
            CallAction::CreateOutgoingCall { call_id, peer_id, local_device_id } => action@ == (
            CallActionView::CreateOutgoingCall { call_id, peer_id: peer_id@, local_device_id }),
            CallAction::Proceed { call_id, ice_servers, hide_ip } => {
                &&& action@ matches CallActionView::Proceed {
                    call_id: id,
                    ice_servers: servers,
                    hide_ip: hide,
                }
                &&& id == call_id
                &&& hide == hide_ip
                &&& servers.len() == ice_servers@.len()
                &&& forall|i: int|
                    0 <= i < servers.len() ==> (#[trigger] servers[i]) == ice_servers@[i]@
            },
            CallAction::ReceiveOffer {
                call_id,
                peer_id,
                opaque,
                age_ms,
                sender_device_id,
                receiver_device_id,
                sender_identity_key,
                receiver_identity_key,
            } => action@ == (CallActionView::ReceiveOffer {
                call_id,
                peer_id: peer_id@,
                opaque: opaque@,
                age_ms,
                sender_device_id,
                receiver_device_id,
                sender_identity_key: sender_identity_key@,
                receiver_identity_key: receiver_identity_key@,
            }),
            CallAction::ReceiveAnswer {
                call_id,
                peer_id,
                opaque,
                sender_device_id,
                sender_identity_key,
                receiver_identity_key,
            } => action@ == (CallActionView::ReceiveAnswer {
                call_id,
                peer_id: peer_id@,
                opaque: opaque@,
                sender_device_id,
                sender_identity_key: sender_identity_key@,
                receiver_identity_key: receiver_identity_key@,
            }),
            CallAction::ReceiveIce { call_id, peer_id, candidates, sender_device_id } => {
                &&& action@ matches CallActionView::ReceiveIce {
                    call_id: id,
                    peer_id: peer,
                    candidates: payloads,
                    sender_device_id: sender,
                }
                &&& id == call_id
                &&& peer == peer_id@
                &&& sender == sender_device_id
                &&& payloads.len() == candidates@.len()
                &&& forall|i: int|
                    0 <= i < payloads.len() ==> (#[trigger] payloads[i]) == candidates@[i]@
            },
            CallAction::Accept { call_id } => action@ == (CallActionView::Accept { call_id }),
            CallAction::Hangup => action@ is Hangup,
        },
{
}

} // verus!
