//! A queue between two parties: what is sent first is received first, and either side can leave.

use std::collections::VecDeque;
use vstd::prelude::*;

verus! {

/// A queue with a sending and a receiving side.
#[derive(Debug)]
pub struct Channel<T> {
    pub items: VecDeque<T>,
    pub sender_open: bool,
    pub receiver_open: bool,
}

/// Why there is nothing to receive.
#[derive(Debug, Clone, Copy, PartialEq, Eq, Structural)]
pub enum RecvError {
    /// Nothing is queued, but the sender is still there.
    Empty,
    /// Nothing is queued and the sender is gone.
    Disconnected,
}

pub struct ChannelView<M> {
    /// What was sent and not yet received.
    pub items: Seq<M>,
    pub sender_open: bool,
    pub receiver_open: bool,
}

impl<T: View> View for Channel<T> {
    type V = ChannelView<T::V>;

    open spec fn view(&self) -> ChannelView<T::V> {
        ChannelView {
            items: self.items@.map_values(|item: T| item@),
            sender_open: self.sender_open,
            receiver_open: self.receiver_open,
        }
    }
}

impl<M> ChannelView<M> {
    /// A queue with both sides present and nothing sent.
    pub open spec fn fresh() -> Self {
        ChannelView { items: seq![], sender_open: true, receiver_open: true }
    }

    /// The queue once `item` was sent: it comes last, and is lost where nobody receives.
    pub open spec fn sent(self, item: M) -> Self {
        if self.receiver_open {
            ChannelView { items: self.items.push(item), ..self }
        } else {
            self
        }
    }

    /// What the next attempt to receive gives.
    pub open spec fn next(self) -> Result<M, RecvError> {
        if self.items.len() > 0 {
            Ok(self.items[0])
        } else if self.sender_open {
            Err(RecvError::Empty)
        } else {
            Err(RecvError::Disconnected)
        }
    }

    /// The queue once an attempt to receive was made.
    pub open spec fn received(self) -> Self {
        if self.items.len() > 0 {
            ChannelView { items: self.items.drop_first(), ..self }
        } else {
            self
        }
    }

    pub open spec fn without_sender(self) -> Self {
        ChannelView { sender_open: false, ..self }
    }

    /// The queue once the receiver is gone: with it goes all that was queued.
    pub open spec fn without_receiver(self) -> Self {
        ChannelView { items: seq![], receiver_open: false, ..self }
    }
}

impl<T: View> Channel<T> {
    pub fn new() -> (channel: Self)
        ensures
            channel@ == ChannelView::<T::V>::fresh(),
    {
        let channel = Channel { items: VecDeque::new(), sender_open: true, receiver_open: true };
        assert(channel@.items =~= seq![]);
        channel
    }

    /// Queues `item`, or hands it back where the receiver is gone.
    pub fn send(&mut self, item: T) -> (outcome: Result<(), T>)
        ensures
            final(self)@ == old(self)@.sent(item@),
            outcome is Ok <==> old(self)@.receiver_open,
            outcome matches Err(back) ==> back == item,
    {
        if self.receiver_open {
            self.items.push_back(item);
            assert(self@.items =~= old(self)@.items.push(item@));
            Ok(())
        } else {
            Err(item)
        }
    }

    /// Takes the item that was queued first.
    pub fn try_recv(&mut self) -> (item: Result<T, RecvError>)
        ensures
            match item {
                Ok(value) => old(self)@.next() == Ok::<T::V, RecvError>(value@),
                Err(error) => old(self)@.next() == Err::<T::V, RecvError>(error),
            },
            final(self)@ == old(self)@.received(),
    {
        match self.items.pop_front() {
            Some(item) => {
                assert(self@.items =~= old(self)@.items.drop_first());
                Ok(item)
            },
            None => {
                assert(self@.items =~= old(self)@.items);
                if self.sender_open {
                    Err(RecvError::Empty)
                } else {
                    Err(RecvError::Disconnected)
                }
            },
        }
    }

    /// The sender leaves; what it sent can still be received.
    pub fn close_sender(&mut self)
        ensures
            final(self)@ == old(self)@.without_sender(),
    {
        self.sender_open = false;
    }

    /// The receiver leaves.
    pub fn close_receiver(&mut self)
        ensures
            final(self)@ == old(self)@.without_receiver(),
    {
        self.items.clear();
        self.receiver_open = false;
        assert(self@.items =~= seq![]);
    }
}

/// One use of a queue.
pub enum ChannelUse<M> {
    Send(M),
    Receive,
}

/// A queue, with all that was sent through it and all that was received from it.
pub struct ChannelTrace<M> {
    pub channel: ChannelView<M>,
    pub sent: Seq<M>,
    pub received: Seq<M>,
}

/// A fresh queue after `uses`.
pub open spec fn channel_after<M>(uses: Seq<ChannelUse<M>>) -> ChannelTrace<M>
    decreases uses.len(),
{
    if uses.len() == 0 {
        ChannelTrace { channel: ChannelView::fresh(), sent: seq![], received: seq![] }
    } else {
        let before = channel_after(uses.drop_last());
        match uses.last() {
            ChannelUse::Send(item) => ChannelTrace {
                channel: before.channel.sent(item),
                sent: before.sent.push(item),
                received: before.received,
            },
            ChannelUse::Receive => ChannelTrace {
                channel: before.channel.received(),
                sent: before.sent,
                received: match before.channel.next() {
                    Ok(item) => before.received.push(item),
                    Err(_) => before.received,
                },
            },
        }
    }
}

/// While both sides stay, nothing is lost, doubled or reordered: what was received, followed by
/// what is still queued, is what was sent.
pub proof fn law_received_in_order<M>(uses: Seq<ChannelUse<M>>)
    ensures
        channel_after(uses).received + channel_after(uses).channel.items == channel_after(
            uses,
        ).sent,
        channel_after(uses).channel.sender_open,
        channel_after(uses).channel.receiver_open,
    decreases uses.len(),
{
    if uses.len() > 0 {
        let before = channel_after(uses.drop_last());
        law_received_in_order(uses.drop_last());
        assert(before.received + before.channel.items == before.sent);
        let after = channel_after(uses);
        assert(after.received + after.channel.items =~= after.sent);
    }
}

/// What the leaving of a side does: what a sender sent can still be received after it has left, and
/// only then is there nothing more to come; once the receiver has left, what was queued is gone and
/// what is sent is lost.
pub proof fn law_sides_leave<M>(channel: ChannelView<M>, item: M)
    ensures
        channel.without_sender().items == channel.items,
        !channel.without_sender().sender_open,
        channel.without_sender().receiver_open == channel.receiver_open,
        channel.items.len() > 0 ==> channel.without_sender().next() == Ok::<M, RecvError>(
            channel.items[0],
        ),
        channel.items.len() == 0 ==> channel.without_sender().next() == Err::<M, RecvError>(
            RecvError::Disconnected,
        ),
        channel.items.len() == 0 && channel.sender_open ==> channel.next() == Err::<M, RecvError>(
            RecvError::Empty,
        ),
        channel.without_receiver().items.len() == 0,
        !channel.without_receiver().receiver_open,
        channel.without_receiver().sender_open == channel.sender_open,
        channel.without_receiver().sent(item) == channel.without_receiver(),
{
}

/// What is sent comes last and what is received comes first, and neither changes who is there.
pub proof fn law_sent_last_received_first<M>(channel: ChannelView<M>, item: M)
    ensures
        channel.receiver_open ==> channel.sent(item).items == channel.items + seq![item],
        channel.sent(item).sender_open == channel.sender_open,
        channel.sent(item).receiver_open == channel.receiver_open,
        channel.items.len() > 0 ==> channel.next() == Ok::<M, RecvError>(channel.items[0])
            && channel.received().items == channel.items.skip(1),
        channel.items.len() == 0 ==> channel.received().items.len() == 0 && channel.next() is Err,
        channel.received().sender_open == channel.sender_open,
        channel.received().receiver_open == channel.receiver_open,
{
    assert(channel.items.push(item) =~= channel.items + seq![item]);
    if channel.items.len() > 0 {
        assert(channel.items.drop_first() =~= channel.items.skip(1));
    }
}

} // verus!
