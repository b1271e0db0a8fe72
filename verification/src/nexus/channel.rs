//! Channels: bounded first-in first-out message queues between two parties.
use vstd::prelude::*;
use super::message::Message;

verus! {

/// Maximum number of messages waiting in one channel.
pub const CHANNEL_CAPACITY: usize = 256;

/// Identifier of a channel (0 is never used).
#[derive(Debug, Clone, Copy, PartialEq, Eq, Structural, Hash)]
pub struct ChannelId(pub u64);

/// The right to use one end of a channel.
#[derive(Debug, Clone, Copy, PartialEq, Eq, Structural)]
pub struct ChannelCapability {
    /// The channel this capability refers to.
    pub channel_id: ChannelId,
    /// May send on the channel.
    pub can_send: bool,
    /// May receive from the channel.
    pub can_receive: bool,
}

impl ChannelCapability {
    /// A capability that may both send and receive.
    pub fn new_bidirectional(channel_id: ChannelId) -> (r: Self)
        ensures
            r == (ChannelCapability { channel_id, can_send: true, can_receive: true }),
    {
        ChannelCapability { channel_id, can_send: true, can_receive: true }
    }
}

/// Errors of a single channel.
#[derive(Debug, Clone, Copy, PartialEq, Eq, Structural)]
pub enum ChannelError {
    /// The queue is full.
    Full,
    /// The channel is closed.
    Closed,
    /// No such channel.
    NotFound,
}

/// Outcome of sending on a channel in the given state.
pub open spec fn send_result(closed: bool, queue: Seq<Message>) -> Result<(), ChannelError> {
    if closed {
        Err(ChannelError::Closed)
    } else if queue.len() >= CHANNEL_CAPACITY {
        Err(ChannelError::Full)
    } else {
        Ok(())
    }
}

/// Outcome of a non-blocking receive on a channel in the given state: the oldest
/// message while any is queued, even after closing; then `Closed` once closed.
pub open spec fn receive_result(closed: bool, queue: Seq<Message>) -> Result<Option<Message>, ChannelError> {
    if queue.len() > 0 {
        Ok(Some(queue[0]))
    } else if closed {
        Err(ChannelError::Closed)
    } else {
        Ok(None)
    }
}

/// A channel: a queue of messages, oldest first.
pub struct Channel {
    id: ChannelId,
    queue: Vec<Message>,
    closed: bool,
}

impl Channel {
    /// The channel's identifier.
    pub closed spec fn spec_id(&self) -> ChannelId {
        self.id
    }

    /// The queued messages, oldest first.
    pub closed spec fn spec_queue(&self) -> Seq<Message> {
        self.queue@
    }

    /// Whether the channel has been closed.
    pub closed spec fn spec_closed(&self) -> bool {
        self.closed
    }

    /// An open channel with an empty queue.
    pub fn new(id: ChannelId) -> (r: Self)
        ensures
            r.spec_id() == id,
            r.spec_queue().len() == 0,
            !r.spec_closed(),
    {
        Channel { id, queue: Vec::new(), closed: false }
    }

    /// The channel's identifier.
    pub fn id(&self) -> (r: ChannelId)
        ensures
            r == self.spec_id(),
    {
        self.id
    }

    /// Append a message to the queue.
    pub fn send(&mut self, message: Message) -> (r: Result<(), ChannelError>)
        requires
            old(self).spec_queue().len() <= CHANNEL_CAPACITY,
        ensures
            r == send_result(old(self).spec_closed(), old(self).spec_queue()),
            final(self).spec_id() == old(self).spec_id(),
            final(self).spec_closed() == old(self).spec_closed(),
            final(self).spec_queue() == (if r is Ok {
                old(self).spec_queue().push(message)
            } else {
                old(self).spec_queue()
            }),
    {
        if self.closed {
            return Err(ChannelError::Closed);
        }
        if self.queue.len() >= CHANNEL_CAPACITY {
            return Err(ChannelError::Full);
        }
        self.queue.push(message);
        Ok(())
    }

    /// Take the oldest message, if any.
    pub fn try_receive(&mut self) -> (r: Result<Option<Message>, ChannelError>)
        ensures
            r == receive_result(old(self).spec_closed(), old(self).spec_queue()),
            final(self).spec_id() == old(self).spec_id(),
            final(self).spec_closed() == old(self).spec_closed(),
            final(self).spec_queue() == (if old(self).spec_queue().len() > 0 {
                old(self).spec_queue().drop_first()
            } else {
                old(self).spec_queue()
            }),
    {
        if self.queue.len() > 0 {
            let m = self.queue.remove(0);
            proof {
                assert(self.queue@ =~= old(self).queue@.drop_first());
            }
            return Ok(Some(m));
        }
        if self.closed {
            return Err(ChannelError::Closed);
        }
        Ok(None)
    }

    /// Close the channel: no more messages may be sent.
    pub fn close(&mut self)
        ensures
            final(self).spec_closed(),
            final(self).spec_id() == old(self).spec_id(),
            final(self).spec_queue() == old(self).spec_queue(),
    {
        self.closed = true;
    }

    /// Whether the channel has been closed.
    pub fn is_closed(&self) -> (r: bool)
        ensures
            r == self.spec_closed(),
    {
        self.closed
    }

    /// Number of queued messages.
    pub fn message_count(&self) -> (r: usize)
        ensures
            r == self.spec_queue().len(),
    {
        self.queue.len()
    }
}

} // verus!
