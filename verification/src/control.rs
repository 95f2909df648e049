//! The control channel: who may speak on it, and what goes through it.

use crate::channel::{Channel, ChannelView, RecvError};
use crate::document::{
    distinct_members, is_one_line, law_plain_text_is_one_line, lemma_record_members, Doc,
    RecordWriter,
};
use crate::json::{is_reading_of, json_document, JsonView};
use crate::line_text::{error_text, law_error_line_text, law_ready_line_text, ready_text};
use crate::message::{
    line_meaning, parse_message, parsed_view, ControlMessage, ControlMessageView, MessageError,
    MessageErrorView,
};
use crate::message_doc::{law_message_line_is_understood, message_doc};
use crate::platform::{event_doc, says, PlatformEvent};
use crate::text::{is_blank, is_blank_text, is_white_space};
use subtle::ConstantTimeEq;
use vstd::prelude::*;
use vstd::utf8::*;

verus! {

/// Calls `subtle`'s `ConstantTimeEq::ct_eq` on byte slices: whether they have the same length and
/// the same bytes.
#[verifier::external_body]
fn constant_time_equal(a: &[u8], b: &[u8]) -> (equal: bool)
    ensures
        equal == (a@ == b@),
{
    a.ct_eq(b).into()
}

/// Validate the auth token using constant-time comparison.
pub fn validate_token(received: &str, expected: &str) -> (valid: bool)
    ensures
        valid == (received@ == expected@),
{
    broadcast use encode_utf8_decode_utf8;

    let received_bytes = received.as_bytes();
    let expected_bytes = expected.as_bytes();
    if received_bytes.len() != expected_bytes.len() {
        return false;
    }
    proof {
        assert(decode_utf8(encode_utf8(received@)) == received@);
        assert(decode_utf8(encode_utf8(expected@)) == expected@);
    }
    constant_time_equal(received_bytes, expected_bytes)
}

/// Queues lines for the parent process.
#[derive(Debug)]
pub struct ControlWriter {
    pub sender: Channel<String>,
}

impl View for ControlWriter {
    type V = ChannelView<Seq<char>>;

    open spec fn view(&self) -> ChannelView<Seq<char>> {
        self.sender@
    }
}

impl ControlWriter {
    pub fn new() -> (writer: Self)
        ensures
            writer@ == ChannelView::<Seq<char>>::fresh(),
    {
        ControlWriter { sender: Channel::new() }
    }

    /// Queues a line; tells whether anybody is left to write it.
    pub fn send_line(&mut self, line: &str) -> (queued: bool)
        ensures
            final(self)@ == old(self)@.sent(line@),
            queued == old(self)@.receiver_open,
    {
        self.sender.send(line.to_string()).is_ok()
    }

    /// Queues the line that carries an event; tells whether anybody is left to write it.
    pub fn send_event(&mut self, event: &PlatformEvent) -> (queued: bool)
        ensures
            final(self)@ == old(self)@.sent(event_doc(event@).text()),
            queued == old(self)@.receiver_open,
    {
        self.send_line(event.to_json().as_str())
    }

    /// The line to write next.
    pub fn next_line(&mut self) -> (line: Result<String, RecvError>)
        ensures
            match line {
                Ok(text) => old(self)@.next() == Ok::<Seq<char>, RecvError>(text@),
                Err(error) => old(self)@.next() == Err::<Seq<char>, RecvError>(error),
            },
            final(self)@ == old(self)@.received(),
    {
        self.sender.try_recv()
    }

    /// Nobody writes lines any more.
    pub fn close(&mut self)
        ensures
            final(self)@ == old(self)@.without_receiver(),
    {
        self.sender.close_receiver();
    }
}

/// The record that tells the parent process that the tunnel is ready, and by which devices it
/// exchanges audio.
pub open spec fn ready_doc(input_device_name: Seq<char>, output_device_name: Seq<char>) -> Doc {
    Doc::Record(
        seq![
            ("type"@, Doc::Text("ready"@)),
            ("inputDeviceName"@, Doc::Text(input_device_name)),
            ("outputDeviceName"@, Doc::Text(output_device_name)),
        ],
    )
}

/// The line that tells the parent process that the tunnel is ready.
pub fn ready_line(input_device_name: &str, output_device_name: &str) -> (line: String)
    ensures
        line@ == ready_text(input_device_name@, output_device_name@),
        line@ == ready_doc(input_device_name@, output_device_name@).text(),
        is_one_line(line@),
{
    let mut record = RecordWriter::new();
    record.add_text("type", "ready");
    record.add_text("inputDeviceName", input_device_name);
    record.add_text("outputDeviceName", output_device_name);
    assert(record.members@ =~= ready_doc(input_device_name@, output_device_name@)->Record_0);
    proof {
        law_ready_line_text(input_device_name@, output_device_name@);
        lemma_ready_doc_is_plain(input_device_name@, output_device_name@);
        law_plain_text_is_one_line(ready_doc(input_device_name@, output_device_name@), 127);
    }
    record.finish()
}

/// The record that tells the parent process of a failed step.
pub open spec fn error_doc(message: Seq<char>) -> Doc {
    Doc::Record(seq![("type"@, Doc::Text("error"@)), ("message"@, Doc::Text(message))])
}

/// The line that tells the parent process of a failed step.
pub fn error_line(message: &str) -> (line: String)
    ensures
        line@ == error_text(message@),
        line@ == error_doc(message@).text(),
        is_one_line(line@),
{
    let mut record = RecordWriter::new();
    record.add_text("type", "error");
    record.add_text("message", message);
    assert(record.members@ =~= error_doc(message@)->Record_0);
    proof {
        law_error_line_text(message@);
        lemma_error_doc_is_plain(message@);
        law_plain_text_is_one_line(error_doc(message@), 127);
    }
    record.finish()
}

/// What became of a line that the parent process sent.
#[derive(Debug)]
pub enum LineOutcome {
    /// The line was blank.
    Blank,
    /// The line was no control message; reading goes on.
    Unparsable(MessageError),
    /// The parent process showed the right token.
    Authenticated,
    /// The message was queued.
    Delivered,
    /// The token was wrong; reading ends.
    AuthFailed,
    /// The first message was no auth message; reading ends.
    AuthMissing,
    /// Nobody takes messages any more; reading ends.
    ReceiverGone,
}

impl LineOutcome {
    /// Whether more lines are to be read.
    pub open spec fn goes_on(self) -> bool {
        !(self is AuthFailed || self is AuthMissing || self is ReceiverGone)
    }

    /// Whether more lines are to be read.
    pub fn keeps_reading(&self) -> (on: bool)
        ensures
            on == self.goes_on(),
    {
        match self {
            LineOutcome::AuthFailed => false,
            LineOutcome::AuthMissing => false,
            LineOutcome::ReceiverGone => false,
            _ => true,
        }
    }
}

/// Runs the control channel: checks the parent process's token, then queues its messages, and
/// queues the lines for it. Reading goes on while the message queue's sender is open.
#[derive(Debug)]
pub struct ControlChannel {
    pub msg_receiver: Channel<ControlMessage>,
    pub writer: ControlWriter,
    pub expected_token: String,
    pub authenticated: bool,
}

pub struct ControlChannelView {
    pub messages: ChannelView<ControlMessageView>,
    pub lines: ChannelView<Seq<char>>,
    pub token: Seq<char>,
    pub authenticated: bool,
}

impl View for ControlChannel {
    type V = ControlChannelView;

    open spec fn view(&self) -> ControlChannelView {
        ControlChannelView {
            messages: self.msg_receiver@,
            lines: self.writer@,
            token: self.expected_token@,
            authenticated: self.authenticated,
        }
    }
}

impl ControlChannelView {
    /// A control channel that nothing was read from yet: the ready line is queued, nothing else.
    pub open spec fn started(
        token: Seq<char>,
        input_device_name: Seq<char>,
        output_device_name: Seq<char>,
    ) -> Self {
        ControlChannelView {
            messages: ChannelView::fresh(),
            lines: ChannelView::fresh().sent(
                ready_doc(input_device_name, output_device_name).text(),
            ),
            token,
            authenticated: false,
        }
    }

    /// The channel once reading has ended.
    pub open spec fn reading_ended(self) -> Self {
        ControlChannelView { messages: self.messages.without_sender(), ..self }
    }

    /// The channel once a line was parsed to `parsed`.
    pub open spec fn after_parsed(
        self,
        parsed: Result<ControlMessageView, MessageErrorView>,
    ) -> Self {
        match parsed {
            Err(_) => self,
            Ok(message) => if !self.authenticated {
                if message == (ControlMessageView::Auth { token: self.token }) {
                    ControlChannelView { authenticated: true, ..self }
                } else {
                    self.reading_ended()
                }
            } else if self.messages.receiver_open {
                ControlChannelView { messages: self.messages.sent(message), ..self }
            } else {
                self.reading_ended()
            },
        }
    }

    /// What is made of a line that was parsed to `parsed`.
    pub open spec fn outcome_is(
        self,
        parsed: Result<ControlMessageView, MessageErrorView>,
        outcome: LineOutcome,
    ) -> bool {
        match parsed {
            Err(error) => outcome matches LineOutcome::Unparsable(e) && e@ == error,
            Ok(message) => if self.authenticated {
                if self.messages.receiver_open {
                    outcome is Delivered
                } else {
                    outcome is ReceiverGone
                }
            } else {
                match message {
                    ControlMessageView::Auth { token } => if token == self.token {
                        outcome is Authenticated
                    } else {
                        outcome is AuthFailed
                    },
                    _ => outcome is AuthMissing,
                }
            },
        }
    }
}

/// What a line comes to, by what the JSON reader gives for it. A blank line is no message.
pub open spec fn line_result(line: Seq<char>) -> Result<ControlMessageView, MessageErrorView> {
    if is_blank_text(line) {
        Err(MessageErrorView::InvalidJson)
    } else {
        line_meaning(json_document(line))
    }
}

/// Sets up a control channel, with the ready line as the first to be written.
pub fn start_control_channel(
    expected_token: &str,
    input_device_name: &str,
    output_device_name: &str,
) -> (channel: ControlChannel)
    ensures
        channel@ == ControlChannelView::started(
            expected_token@,
            input_device_name@,
            output_device_name@,
        ),
{
    let mut writer = ControlWriter::new();
    writer.send_line(ready_line(input_device_name, output_device_name).as_str());
    ControlChannel {
        msg_receiver: Channel::new(),
        writer,
        expected_token: expected_token.to_string(),
        authenticated: false,
    }
}

impl ControlChannel {
    /// Takes a line that the parent process sent.
    pub fn receive_line(&mut self, line: &str) -> (outcome: LineOutcome)
        requires
            old(self)@.messages.sender_open,
        ensures
            is_blank_text(line@) ==> outcome is Blank && final(self)@ == old(self)@,
            !is_blank_text(line@) ==> old(self)@.outcome_is(line_result(line@), outcome)
                && is_reading_of(json_document(line@), line@),
            final(self)@ == old(self)@.after_parsed(line_result(line@)),
            final(self)@.messages.sender_open == outcome.goes_on(),
    {
        if is_blank(line) {
            LineOutcome::Blank
        } else {
            self.receive_parsed(parse_message(line))
        }
    }

    /// Takes what a line of the parent process was parsed to.
    pub fn receive_parsed(
        &mut self,
        parsed: Result<ControlMessage, MessageError>,
    ) -> (outcome: LineOutcome)
        requires
            old(self)@.messages.sender_open,
        ensures
            old(self)@.outcome_is(parsed_view(parsed), outcome),
            final(self)@ == old(self)@.after_parsed(parsed_view(parsed)),
            final(self)@.messages.sender_open == outcome.goes_on(),
    {
        let message = match parsed {
            Ok(message) => message,
            Err(error) => return LineOutcome::Unparsable(error),
        };
        if !self.authenticated {
            let outcome = match &message {
                ControlMessage::Auth { token } => if validate_token(
                    token.as_str(),
                    self.expected_token.as_str(),
                ) {
                    LineOutcome::Authenticated
                } else {
                    LineOutcome::AuthFailed
                },
                _ => LineOutcome::AuthMissing,
            };
            if outcome.keeps_reading() {
                self.authenticated = true;
            } else {
                self.msg_receiver.close_sender();
            }
            return outcome;
        }
        match self.msg_receiver.send(message) {
            Ok(_) => LineOutcome::Delivered,
            Err(_) => {
                self.msg_receiver.close_sender();
                LineOutcome::ReceiverGone
            },
        }
    }

    /// The parent process is gone, or reading from it failed.
    pub fn end_reading(&mut self)
        ensures
            final(self)@ == old(self)@.reading_ended(),
    {
        self.msg_receiver.close_sender();
    }

    /// The next message of the parent process.
    pub fn next_message(&mut self) -> (message: Result<ControlMessage, RecvError>)
        ensures
            match message {
                Ok(m) => old(self)@.messages.next() == Ok::<ControlMessageView, RecvError>(m@),
                Err(error) => old(self)@.messages.next() == Err::<ControlMessageView, RecvError>(
                    error,
                ),
            },
            final(self)@ == (ControlChannelView {
                messages: old(self)@.messages.received(),
                ..old(self)@
            }),
    {
        self.msg_receiver.try_recv()
    }
}

/// A control channel after lines that were parsed to `parsed`; none is taken once reading has
/// ended.
pub open spec fn after_lines(
    channel: ControlChannelView,
    parsed: Seq<Result<ControlMessageView, MessageErrorView>>,
) -> ControlChannelView
    decreases parsed.len(),
{
    if parsed.len() == 0 {
        channel
    } else {
        let before = after_lines(channel, parsed.drop_last());
        if before.messages.sender_open {
            before.after_parsed(parsed.last())
        } else {
            before
        }
    }
}

/// The messages among what lines were parsed to, in order.
pub open spec fn messages_among(
    parsed: Seq<Result<ControlMessageView, MessageErrorView>>,
) -> Seq<ControlMessageView>
    decreases parsed.len(),
{
    if parsed.len() == 0 {
        seq![]
    } else {
        match parsed.last() {
            Ok(message) => messages_among(parsed.drop_last()).push(message),
            Err(_) => messages_among(parsed.drop_last()),
        }
    }
}

/// The first message must be an auth message with the expected token. Where it is, all later
/// messages are delivered, in order, and nothing else is; where it is another, reading ends and
/// nothing is ever delivered. Lines that are no messages change nothing.
pub proof fn law_first_message_must_authenticate(
    token: Seq<char>,
    input_device_name: Seq<char>,
    output_device_name: Seq<char>,
    parsed: Seq<Result<ControlMessageView, MessageErrorView>>,
)
    ensures
        ({
            let start = ControlChannelView::started(token, input_device_name, output_device_name);
            let end = after_lines(start, parsed);
            let messages = messages_among(parsed);
            &&& end.lines == start.lines
            &&& end.token == token
            &&& end.messages.receiver_open
            &&& if messages.len() == 0 {
                end == start
            } else if messages[0] == (ControlMessageView::Auth { token }) {
                &&& end.authenticated
                &&& end.messages.sender_open
                &&& end.messages.items == messages.drop_first()
            } else {
                &&& !end.authenticated
                &&& !end.messages.sender_open
                &&& end.messages.items.len() == 0
            }
        }),
    decreases parsed.len(),
{
    if parsed.len() > 0 {
        law_first_message_must_authenticate(
            token,
            input_device_name,
            output_device_name,
            parsed.drop_last(),
        );
        let start = ControlChannelView::started(token, input_device_name, output_device_name);
        let end = after_lines(start, parsed);
        let before = messages_among(parsed.drop_last());
        if let Ok(message) = parsed.last() {
            if before.len() > 0 {
                assert(before.push(message).drop_first() =~= before.drop_first().push(message));
            } else {
                assert(before.push(message).drop_first() =~= seq![]);
                assert(end.messages.items =~= seq![]);
            }
        }
    }
}

/// One use of a control channel: a line that was parsed to something is taken in, or the next
/// message is received.
pub enum ControlUse {
    Line(Result<ControlMessageView, MessageErrorView>),
    Receive,
}

/// A control channel, with all the messages that were received from it.
pub struct ControlTrace {
    pub channel: ControlChannelView,
    pub received: Seq<ControlMessageView>,
}

/// A control channel after some uses; no line is taken once reading has ended.
pub open spec fn after_uses(start: ControlChannelView, uses: Seq<ControlUse>) -> ControlTrace
    decreases uses.len(),
{
    if uses.len() == 0 {
        ControlTrace { channel: start, received: seq![] }
    } else {
        let before = after_uses(start, uses.drop_last());
        match uses.last() {
            ControlUse::Line(parsed) => if before.channel.messages.sender_open {
                ControlTrace { channel: before.channel.after_parsed(parsed), ..before }
            } else {
                before
            },
            ControlUse::Receive => ControlTrace {
                channel: ControlChannelView {
                    messages: before.channel.messages.received(),
                    ..before.channel
                },
                received: match before.channel.messages.next() {
                    Ok(message) => before.received.push(message),
                    Err(_) => before.received,
                },
            },
        }
    }
}

/// What the lines among some uses were parsed to, in order.
pub open spec fn lines_among(uses: Seq<ControlUse>) -> Seq<
    Result<ControlMessageView, MessageErrorView>,
>
    decreases uses.len(),
{
    if uses.len() == 0 {
        seq![]
    } else {
        match uses.last() {
            ControlUse::Line(parsed) => lines_among(uses.drop_last()).push(parsed),
            ControlUse::Receive => lines_among(uses.drop_last()),
        }
    }
}

/// Messages may be received while lines still come in: whatever the order of the two, what was
/// received, followed by what is still queued, is all messages after the first, in order, where the
/// first is an auth message with the expected token; where it is another, reading has ended and
/// nothing is ever received.
pub proof fn law_delivered_while_received(
    token: Seq<char>,
    input_device_name: Seq<char>,
    output_device_name: Seq<char>,
    uses: Seq<ControlUse>,
)
    ensures
        ({
            let start = ControlChannelView::started(token, input_device_name, output_device_name);
            let end = after_uses(start, uses);
            let messages = messages_among(lines_among(uses));
            let delivered = end.received + end.channel.messages.items;
            &&& end.channel.lines == start.lines
            &&& end.channel.token == token
            &&& end.channel.messages.receiver_open
            &&& if messages.len() == 0 {
                &&& end.channel == start
                &&& delivered.len() == 0
            } else if messages[0] == (ControlMessageView::Auth { token }) {
                &&& end.channel.authenticated
                &&& end.channel.messages.sender_open
                &&& delivered == messages.drop_first()
            } else {
                &&& !end.channel.authenticated
                &&& !end.channel.messages.sender_open
                &&& delivered.len() == 0
            }
        }),
    decreases uses.len(),
{
    if uses.len() > 0 {
        law_delivered_while_received(
            token,
            input_device_name,
            output_device_name,
            uses.drop_last(),
        );
        let start = ControlChannelView::started(token, input_device_name, output_device_name);
        let before = after_uses(start, uses.drop_last());
        let end = after_uses(start, uses);
        match uses.last() {
            ControlUse::Line(parsed) => {
                let lines = lines_among(uses.drop_last());
                let messages = messages_among(lines);
                assert(lines.push(parsed).drop_last() =~= lines);
                if let Ok(message) = parsed {
                    if messages.len() > 0 {
                        assert(messages.push(message).drop_first()
                            =~= messages.drop_first().push(message));
                        assert(before.received + before.channel.messages.items.push(message) =~= (
                        before.received + before.channel.messages.items).push(message));
                    } else {
                        assert(messages.push(message).drop_first() =~= seq![]);
                        assert(end.received + end.channel.messages.items =~= seq![]);
                    }
                }
            },
            ControlUse::Receive => {
                assert(end.received + end.channel.messages.items =~= before.received
                    + before.channel.messages.items);
            },
        }
    }
}

/// The compact lines that stand for some messages.
pub open spec fn written_lines(messages: Seq<ControlMessageView>) -> Seq<Seq<char>> {
    messages.map_values(|m: ControlMessageView| message_doc(m).text())
}

/// What some lines come to.
pub open spec fn line_results(lines: Seq<Seq<char>>) -> Seq<
    Result<ControlMessageView, MessageErrorView>,
> {
    lines.map_values(|line: Seq<char>| line_result(line))
}

/// What the parent process writes is what is delivered: of compact lines for some messages, the
/// first must stand for an auth message with the expected token, and where it does, all the later
/// messages are delivered as they were meant, in order; otherwise none is.
pub proof fn law_written_messages_are_delivered(
    token: Seq<char>,
    input_device_name: Seq<char>,
    output_device_name: Seq<char>,
    messages: Seq<ControlMessageView>,
)
    requires
        messages.len() > 0,
        forall|i: int|
            #![trigger messages[i]]
            0 <= i < messages.len() ==> is_reading_of(
                json_document(message_doc(messages[i]).text()),
                message_doc(messages[i]).text(),
            ),
    ensures
        ({
            let end = after_lines(
                ControlChannelView::started(token, input_device_name, output_device_name),
                line_results(written_lines(messages)),
            );
            if messages[0] == (ControlMessageView::Auth { token }) {
                end.authenticated && end.messages.sender_open && end.messages.items
                    == messages.drop_first()
            } else {
                !end.authenticated && !end.messages.sender_open && end.messages.items.len() == 0
            }
        }),
{
    lemma_written_lines(messages);
    law_first_message_must_authenticate(
        token,
        input_device_name,
        output_device_name,
        line_results(written_lines(messages)),
    );
}

/// What the parent process writes is what is received, also where messages are received while
/// lines still come in: of compact lines for some messages, the first must stand for an auth
/// message with the expected token, and where it does, what was received, followed by what is still
/// queued, is all the later messages as they were meant, in order; otherwise none is.
pub proof fn law_written_messages_are_received(
    token: Seq<char>,
    input_device_name: Seq<char>,
    output_device_name: Seq<char>,
    messages: Seq<ControlMessageView>,
    uses: Seq<ControlUse>,
)
    requires
        messages.len() > 0,
        forall|i: int|
            #![trigger messages[i]]
            0 <= i < messages.len() ==> is_reading_of(
                json_document(message_doc(messages[i]).text()),
                message_doc(messages[i]).text(),
            ),
        lines_among(uses) == line_results(written_lines(messages)),
    ensures
        ({
            let end = after_uses(
                ControlChannelView::started(token, input_device_name, output_device_name),
                uses,
            );
            let delivered = end.received + end.channel.messages.items;
            if messages[0] == (ControlMessageView::Auth { token }) {
                end.channel.authenticated && end.channel.messages.sender_open && delivered
                    == messages.drop_first()
            } else {
                !end.channel.authenticated && !end.channel.messages.sender_open && delivered.len()
                    == 0
            }
        }),
{
    lemma_written_lines(messages);
    law_delivered_while_received(token, input_device_name, output_device_name, uses);
}

/// Compact lines stand for the messages that they were written for.
proof fn lemma_written_lines(messages: Seq<ControlMessageView>)
    requires
        forall|i: int|
            #![trigger messages[i]]
            0 <= i < messages.len() ==> is_reading_of(
                json_document(message_doc(messages[i]).text()),
                message_doc(messages[i]).text(),
            ),
    ensures
        messages_among(line_results(written_lines(messages))) == messages,
{
    let parsed = line_results(written_lines(messages));
    assert forall|i: int| 0 <= i < messages.len() implies parsed[i] == Ok::<
        ControlMessageView,
        MessageErrorView,
    >(messages[i]) by {
        let message = messages[i];
        let line = message_doc(message).text();
        law_message_line_is_understood(message, json_document(line));
        assert(line[0] == '{');
        assert(!is_white_space(line[0]));
    }
    lemma_all_are_messages(parsed, messages);
}

proof fn lemma_all_are_messages(
    parsed: Seq<Result<ControlMessageView, MessageErrorView>>,
    messages: Seq<ControlMessageView>,
)
    requires
        parsed.len() == messages.len(),
        forall|i: int|
            #![trigger parsed[i]]
            0 <= i < parsed.len() ==> parsed[i] == Ok::<ControlMessageView, MessageErrorView>(
                messages[i],
            ),
    ensures
        messages_among(parsed) == messages,
    decreases parsed.len(),
{
    if parsed.len() > 0 {
        lemma_all_are_messages(parsed.drop_last(), messages.drop_last());
        assert(parsed[parsed.len() - 1] is Ok);
    }
    assert(messages_among(parsed) =~= messages);
}

/// A queue after more lines were sent through it.
pub open spec fn after_sending(
    lines: ChannelView<Seq<char>>,
    more: Seq<Seq<char>>,
) -> ChannelView<Seq<char>>
    decreases more.len(),
{
    if more.len() == 0 {
        lines
    } else {
        after_sending(lines, more.drop_last()).sent(more.last())
    }
}

/// Whatever is sent before the parent process reads its first line, that line is the ready line,
/// and the lines sent follow it in order.
pub proof fn law_ready_line_comes_first(
    token: Seq<char>,
    input_device_name: Seq<char>,
    output_device_name: Seq<char>,
    more: Seq<Seq<char>>,
)
    ensures
        ({
            let start = ControlChannelView::started(token, input_device_name, output_device_name);
            let ready = ready_doc(input_device_name, output_device_name).text();
            let end = after_sending(start.lines, more);
            &&& end.items == seq![ready] + more
            &&& end.receiver_open
            &&& end.next() == Ok::<Seq<char>, RecvError>(ready)
        }),
    decreases more.len(),
{
    let start = ControlChannelView::started(token, input_device_name, output_device_name);
    let ready = ready_doc(input_device_name, output_device_name).text();
    if more.len() > 0 {
        law_ready_line_comes_first(token, input_device_name, output_device_name, more.drop_last());
    }
    assert(after_sending(start.lines, more).items =~= seq![ready] + more);
}

proof fn lemma_ready_doc_is_plain(input_device_name: Seq<char>, output_device_name: Seq<char>)
    ensures
        ready_doc(input_device_name, output_device_name).is_plain(127),
{
    reveal_strlit("type");
    reveal_strlit("inputDeviceName");
    reveal_strlit("outputDeviceName");
    let members = ready_doc(input_device_name, output_device_name)->Record_0;
    assert(forall|i: int| 0 <= i < members.len() ==> (#[trigger] members[i]).1.is_plain(126));
}

proof fn lemma_error_doc_is_plain(message: Seq<char>)
    ensures
        error_doc(message).is_plain(127),
{
    reveal_strlit("type");
    reveal_strlit("message");
    let members = error_doc(message)->Record_0;
    assert(forall|i: int| 0 <= i < members.len() ==> (#[trigger] members[i]).1.is_plain(126));
}

/// The ready line takes one line and reads back, whatever the names hold: what the JSON reader
/// gives for it is a document that names the two devices.
pub proof fn law_ready_line_reads_back(
    input_device_name: Seq<char>,
    output_device_name: Seq<char>,
    read: Option<JsonView>,
)
    requires
        is_reading_of(read, ready_doc(input_device_name, output_device_name).text()),
    ensures
        read matches Some(doc) && says(doc, "type"@, "ready"@) && says(
            doc,
            "inputDeviceName"@,
            input_device_name,
        ) && says(doc, "outputDeviceName"@, output_device_name),
        is_one_line(ready_doc(input_device_name, output_device_name).text()),
{
    reveal_strlit("type");
    reveal_strlit("inputDeviceName");
    reveal_strlit("outputDeviceName");
    let doc = ready_doc(input_device_name, output_device_name);
    let members = doc->Record_0;
    lemma_ready_doc_is_plain(input_device_name, output_device_name);
    law_plain_text_is_one_line(doc, 127);
    assert(distinct_members(members));
    lemma_record_members(members);
    assert(members[0].1.tree() is Text);
    assert(members[1].1.tree() is Text);
    assert(members[2].1.tree() is Text);
    assert(read == Some(doc.tree()));
}

/// An error line takes one line and reads back, whatever the message holds: what the JSON reader
/// gives for it is a document that tells the message.
pub proof fn law_error_line_reads_back(message: Seq<char>, read: Option<JsonView>)
    requires
        is_reading_of(read, error_doc(message).text()),
    ensures
        read matches Some(doc) && says(doc, "type"@, "error"@) && says(doc, "message"@, message),
        is_one_line(error_doc(message).text()),
{
    reveal_strlit("type");
    reveal_strlit("message");
    let doc = error_doc(message);
    let members = doc->Record_0;
    lemma_error_doc_is_plain(message);
    law_plain_text_is_one_line(doc, 127);
    assert(distinct_members(members));
    lemma_record_members(members);
    assert(members[0].1.tree() is Text);
    assert(members[1].1.tree() is Text);
    assert(read == Some(doc.tree()));
}

/// What is made of a line, and what the channel is afterwards. A line that is no message changes
/// nothing and says why it is none. Before the token was shown, an auth message with the token
/// opens the channel, and any other message ends the reading. Afterwards a message is queued where
/// anybody receives, and otherwise ends the reading. The lines to be written and the token stay.
pub proof fn law_outcome_tells_what_became_of_a_line(
    channel: ControlChannelView,
    parsed: Result<ControlMessageView, MessageErrorView>,
    outcome: LineOutcome,
)
    requires
        channel.messages.sender_open,
        channel.outcome_is(parsed, outcome),
    ensures
        ({
            let after = channel.after_parsed(parsed);
            &&& after.lines == channel.lines
            &&& after.token == channel.token
            &&& after.messages.receiver_open == channel.messages.receiver_open
            &&& after.messages.sender_open == outcome.goes_on()
            &&& match outcome {
                LineOutcome::Blank => false,
                LineOutcome::Unparsable(error) => {
                    &&& parsed == Err::<ControlMessageView, MessageErrorView>(error@)
                    &&& after == channel
                    &&& outcome.goes_on()
                },
                LineOutcome::Authenticated => {
                    &&& !channel.authenticated
                    &&& parsed == Ok::<ControlMessageView, MessageErrorView>(
                        ControlMessageView::Auth { token: channel.token },
                    )
                    &&& after.authenticated
                    &&& after.messages.items == channel.messages.items
                    &&& outcome.goes_on()
                },
                LineOutcome::Delivered => {
                    &&& channel.authenticated && after.authenticated
                    &&& channel.messages.receiver_open
                    &&& parsed is Ok
                    &&& after.messages.items == channel.messages.items.push(parsed->Ok_0)
                    &&& outcome.goes_on()
                },
                LineOutcome::AuthFailed => {
                    &&& !channel.authenticated && !after.authenticated
                    &&& parsed is Ok && parsed->Ok_0 is Auth
                    &&& parsed->Ok_0->token != channel.token
                    &&& after.messages.items == channel.messages.items
                    &&& !outcome.goes_on()
                },
                LineOutcome::AuthMissing => {
                    &&& !channel.authenticated && !after.authenticated
                    &&& parsed is Ok && !(parsed->Ok_0 is Auth)
                    &&& after.messages.items == channel.messages.items
                    &&& !outcome.goes_on()
                },
                LineOutcome::ReceiverGone => {
                    &&& channel.authenticated && after.authenticated
                    &&& !channel.messages.receiver_open
                    &&& parsed is Ok
                    &&& after.messages.items == channel.messages.items
                    &&& !outcome.goes_on()
                },
            }
        }),
{
}

/// The end of the reading changes nothing but that no more messages come.
pub proof fn law_end_of_reading(channel: ControlChannelView)
    ensures
        !channel.reading_ended().messages.sender_open,
        channel.reading_ended().messages.items == channel.messages.items,
        channel.reading_ended().messages.receiver_open == channel.messages.receiver_open,
        channel.reading_ended().lines == channel.lines,
        channel.reading_ended().token == channel.token,
        channel.reading_ended().authenticated == channel.authenticated,
{
}

/// The ready line and an error line tell nothing else: their records have three and two members,
/// the type first.
pub proof fn law_ready_and_error_tell_nothing_else(
    input_device_name: Seq<char>,
    output_device_name: Seq<char>,
    message: Seq<char>,
)
    ensures
        ready_doc(input_device_name, output_device_name) is Record,
        ready_doc(input_device_name, output_device_name)->Record_0.len() == 3,
        ready_doc(input_device_name, output_device_name)->Record_0[0].0 == "type"@,
        error_doc(message) is Record,
        error_doc(message)->Record_0.len() == 2,
        error_doc(message)->Record_0[0].0 == "type"@,
{
}

/// A channel shows what it holds: what is queued each way, the token, and whether it was shown.
pub proof fn law_channel_shows_what_it_holds(channel: ControlChannel)
    ensures
        channel@.token == channel.expected_token@,
        channel@.authenticated == channel.authenticated,
        channel@.messages.sender_open == channel.msg_receiver.sender_open,
        channel@.messages.receiver_open == channel.msg_receiver.receiver_open,
        channel@.messages.items.len() == channel.msg_receiver.items@.len(),
        channel@.lines.items.len() == channel.writer.sender.items@.len(),
        forall|i: int|
            0 <= i < channel@.messages.items.len() ==> (#[trigger] channel@.messages.items[i])
                == channel.msg_receiver.items@[i]@,
        forall|i: int|
            0 <= i < channel@.lines.items.len() ==> (#[trigger] channel@.lines.items[i])
                == channel.writer.sender.items@[i]@,
{
}

} // verus!
