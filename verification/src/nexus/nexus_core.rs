//! The Nexus core: the registry of all channels.
//!
//! Channels are kept in the order of their identifiers, handed out in increasing
//! order from 1. Messages travel through a channel first in, first out.
use vstd::prelude::*;
use super::channel::{
    Channel, ChannelId, ChannelCapability, ChannelError, CHANNEL_CAPACITY, send_result, receive_result,
};
use super::message::Message;
use super::NexusError;

verus! {

/// The maximum number of channels the Nexus can manage.
pub const MAX_CHANNELS: usize = 4096;

/// Position of the first channel with identifier `id`, searching from `i`.
pub open spec fn channel_index_from(chs: Seq<Channel>, id: u64, i: int) -> Option<int>
    decreases chs.len() - i,
{
    if i < 0 || i >= chs.len() {
        None
    } else if chs[i].spec_id().0 == id {
        Some(i)
    } else {
        channel_index_from(chs, id, i + 1)
    }
}

/// Position of the channel with identifier `id`.
pub open spec fn channel_index(chs: Seq<Channel>, id: u64) -> Option<int> {
    channel_index_from(chs, id, 0)
}

/// Number of open channels among the first `n`.
pub open spec fn open_count(chs: Seq<Channel>, n: int) -> nat
    decreases n,
{
    if n <= 0 || n > chs.len() {
        0
    } else {
        open_count(chs, n - 1) + if chs[n - 1].spec_closed() {
            0nat
        } else {
            1nat
        }
    }
}

/// Number of queued messages in the first `n` channels.
pub open spec fn queued_count(chs: Seq<Channel>, n: int) -> nat
    decreases n,
{
    if n <= 0 || n > chs.len() {
        0
    } else {
        queued_count(chs, n - 1) + chs[n - 1].spec_queue().len()
    }
}

/// Map a channel error to the Nexus error that reports it.
pub open spec fn nexus_error_of(e: ChannelError) -> NexusError {
    match e {
        ChannelError::Full => NexusError::ChannelFull,
        ChannelError::Closed => NexusError::ChannelClosed,
        ChannelError::NotFound => NexusError::ChannelNotFound,
    }
}

/// Statistics about the Nexus.
#[derive(Debug, Clone, Copy)]
pub struct NexusStats {
    pub total_channels: usize,
    pub active_channels: usize,
    pub total_queued_messages: usize,
}

/// The central Nexus manages all channels in the system.
pub struct NexusCore {
    channels: Vec<Channel>,
    next_channel_id: u64,
}

impl NexusCore {
    /// The channels, in increasing order of identifier.
    pub closed spec fn spec_channels(&self) -> Seq<Channel> {
        self.channels@
    }

    /// The identifier the next channel receives.
    pub closed spec fn spec_next_id(&self) -> u64 {
        self.next_channel_id
    }

    /// Registry invariant: bounded, identifiers increasing from 1 and below the next
    /// one, every queue within its capacity.
    pub open spec fn wf(&self) -> bool {
        let c = self.spec_channels();
        &&& c.len() <= MAX_CHANNELS
        &&& self.spec_next_id() >= 1
        &&& forall|i: int, j: int| 0 <= i < j < c.len() ==> c[i].spec_id().0 < c[j].spec_id().0
        &&& forall|i: int| 0 <= i < c.len() ==> 1 <= #[trigger] c[i].spec_id().0 < self.spec_next_id()
        &&& forall|i: int| 0 <= i < c.len() ==> #[trigger] c[i].spec_queue().len() <= CHANNEL_CAPACITY
    }

    /// An empty Nexus; channel identifiers start at 1 (0 is reserved as invalid).
    pub fn new() -> (r: Self)
        ensures
            r.wf(),
            r.spec_channels().len() == 0,
            r.spec_next_id() == 1,
    {
        NexusCore { channels: Vec::new(), next_channel_id: 1 }
    }

    fn index_of(&self, channel_id: ChannelId) -> (r: Option<usize>)
        ensures
            match r {
                Some(i) => channel_index(self.channels@, channel_id.0) == Some(i as int)
                    && i < self.channels@.len(),
                None => channel_index(self.channels@, channel_id.0) is None,
            },
    {
        let mut i: usize = 0;
        while i < self.channels.len()
            invariant
                i <= self.channels@.len(),
                channel_index_from(self.channels@, channel_id.0, 0) == channel_index_from(
                    self.channels@,
                    channel_id.0,
                    i as int,
                ),
            decreases self.channels@.len() - i,
        {
            if self.channels[i].id().0 == channel_id.0 {
                return Some(i);
            }
            i = i + 1;
        }
        None
    }

    /// Create a new channel and return two capabilities for it, one per end;
    /// both may send and receive.
    pub fn create_channel(&mut self) -> (r: Result<(ChannelCapability, ChannelCapability), NexusError>)
        requires
            old(self).wf(),
            old(self).spec_next_id() < u64::MAX,
        ensures
            final(self).wf(),
            old(self).spec_channels().len() >= MAX_CHANNELS ==> r == Err::<
                (ChannelCapability, ChannelCapability),
                NexusError,
            >(NexusError::OutOfChannels) && *final(self) == *old(self),
            old(self).spec_channels().len() < MAX_CHANNELS ==> {
                let cap = ChannelCapability {
                    channel_id: ChannelId(old(self).spec_next_id()),
                    can_send: true,
                    can_receive: true,
                };
                &&& r == Ok::<(ChannelCapability, ChannelCapability), NexusError>((cap, cap))
                &&& final(self).spec_next_id() == old(self).spec_next_id() + 1
                &&& final(self).spec_channels().len() == old(self).spec_channels().len() + 1
                &&& final(self).spec_channels().drop_last() == old(self).spec_channels()
                &&& final(self).spec_channels().last().spec_id() == ChannelId(old(self).spec_next_id())
                &&& final(self).spec_channels().last().spec_queue().len() == 0
                &&& !final(self).spec_channels().last().spec_closed()
            },
    {
        if self.channels.len() >= MAX_CHANNELS {
            return Err(NexusError::OutOfChannels);
        }
        let channel_id = ChannelId(self.next_channel_id);
        self.next_channel_id = self.next_channel_id + 1;
        let ghost before = self.channels@;
        self.channels.push(Channel::new(channel_id));
        proof {
            assert(self.channels@.drop_last() =~= before);
        }
        let cap_a = ChannelCapability::new_bidirectional(channel_id);
        let cap_b = ChannelCapability::new_bidirectional(channel_id);
        Ok((cap_a, cap_b))
    }

    /// Send a message through a channel.
    pub fn send(&mut self, channel_id: ChannelId, message: Message) -> (r: Result<(), NexusError>)
        requires
            old(self).wf(),
        ensures
            final(self).wf(),
            final(self).spec_next_id() == old(self).spec_next_id(),
            match channel_index(old(self).spec_channels(), channel_id.0) {
                None => r == Err::<(), NexusError>(NexusError::ChannelNotFound) && *final(self) == *old(self),
                Some(i) => {
                    let c0 = old(self).spec_channels()[i];
                    let c1 = final(self).spec_channels()[i];
                    &&& final(self).spec_channels().len() == old(self).spec_channels().len()
                    &&& forall|k: int|
                        0 <= k < old(self).spec_channels().len() && k != i ==> final(self).spec_channels()[k]
                            == old(self).spec_channels()[k]
                    &&& c1.spec_id() == c0.spec_id() && c1.spec_closed() == c0.spec_closed()
                    &&& match send_result(c0.spec_closed(), c0.spec_queue()) {
                        Ok(()) => r == Ok::<(), NexusError>(()) && c1.spec_queue() == c0.spec_queue().push(message),
                        Err(e) => r == Err::<(), NexusError>(nexus_error_of(e)) && c1.spec_queue() == c0.spec_queue(),
                    }
                },
            },
    {
        match self.index_of(channel_id) {
            None => Err(NexusError::ChannelNotFound),
            Some(i) => {
                assert(self.channels@[i as int].spec_queue().len() <= CHANNEL_CAPACITY);
                match self.channels[i].send(message) {
                    Ok(()) => Ok(()),
                    Err(ChannelError::Full) => Err(NexusError::ChannelFull),
                    Err(ChannelError::Closed) => Err(NexusError::ChannelClosed),
                    Err(ChannelError::NotFound) => Err(NexusError::ChannelNotFound),
                }
            },
        }
    }

    /// Take the oldest message from a channel, without blocking.
    pub fn try_receive(&mut self, channel_id: ChannelId) -> (r: Result<Option<Message>, NexusError>)
        requires
            old(self).wf(),
        ensures
            final(self).wf(),
            final(self).spec_next_id() == old(self).spec_next_id(),
            match channel_index(old(self).spec_channels(), channel_id.0) {
                None => r == Err::<Option<Message>, NexusError>(NexusError::ChannelNotFound) && *final(self)
                    == *old(self),
                Some(i) => {
                    let c0 = old(self).spec_channels()[i];
                    let c1 = final(self).spec_channels()[i];
                    &&& final(self).spec_channels().len() == old(self).spec_channels().len()
                    &&& forall|k: int|
                        0 <= k < old(self).spec_channels().len() && k != i ==> final(self).spec_channels()[k]
                            == old(self).spec_channels()[k]
                    &&& c1.spec_id() == c0.spec_id() && c1.spec_closed() == c0.spec_closed()
                    &&& match receive_result(c0.spec_closed(), c0.spec_queue()) {
                        Ok(m) => r == Ok::<Option<Message>, NexusError>(m),
                        Err(e) => r == Err::<Option<Message>, NexusError>(nexus_error_of(e)),
                    }
                    &&& c1.spec_queue() == (if c0.spec_queue().len() > 0 {
                        c0.spec_queue().drop_first()
                    } else {
                        c0.spec_queue()
                    })
                },
            },
    {
        match self.index_of(channel_id) {
            None => Err(NexusError::ChannelNotFound),
            Some(i) => {
                match self.channels[i].try_receive() {
                    Ok(m) => Ok(m),
                    Err(ChannelError::Closed) => Err(NexusError::ChannelClosed),
                    Err(ChannelError::NotFound) => Err(NexusError::ChannelNotFound),
                    Err(ChannelError::Full) => Err(NexusError::ChannelFull),
                }
            },
        }
    }

    /// Close a channel; queued messages stay receivable.
    pub fn close_channel(&mut self, channel_id: ChannelId) -> (r: Result<(), NexusError>)
        requires
            old(self).wf(),
        ensures
            final(self).wf(),
            final(self).spec_next_id() == old(self).spec_next_id(),
            match channel_index(old(self).spec_channels(), channel_id.0) {
                None => r == Err::<(), NexusError>(NexusError::ChannelNotFound) && *final(self) == *old(self),
                Some(i) => {
                    let c0 = old(self).spec_channels()[i];
                    let c1 = final(self).spec_channels()[i];
                    &&& r == Ok::<(), NexusError>(())
                    &&& final(self).spec_channels().len() == old(self).spec_channels().len()
                    &&& forall|k: int|
                        0 <= k < old(self).spec_channels().len() && k != i ==> final(self).spec_channels()[k]
                            == old(self).spec_channels()[k]
                    &&& c1.spec_id() == c0.spec_id() && c1.spec_closed() && c1.spec_queue() == c0.spec_queue()
                },
            },
    {
        match self.index_of(channel_id) {
            None => Err(NexusError::ChannelNotFound),
            Some(i) => {
                self.channels[i].close();
                Ok(())
            },
        }
    }

    /// Channel count, open channel count, and total queued messages.
    pub fn stats(&self) -> (r: NexusStats)
        requires
            self.wf(),
        ensures
            r.total_channels == self.spec_channels().len(),
            r.active_channels == open_count(self.spec_channels(), self.spec_channels().len() as int),
            r.total_queued_messages == queued_count(self.spec_channels(), self.spec_channels().len() as int),
    {
        let mut active: usize = 0;
        let mut queued: usize = 0;
        let mut i: usize = 0;
        while i < self.channels.len()
            invariant
                i <= self.channels@.len(),
                self.wf(),
                active == open_count(self.channels@, i as int),
                queued == queued_count(self.channels@, i as int),
                active <= i,
                queued <= i * CHANNEL_CAPACITY,
            decreases self.channels@.len() - i,
        {
            assert(self.channels@[i as int].spec_queue().len() <= CHANNEL_CAPACITY);
            if !self.channels[i].is_closed() {
                active = active + 1;
            }
            queued = queued + self.channels[i].message_count();
            i = i + 1;
        }
        NexusStats { total_channels: self.channels.len(), active_channels: active, total_queued_messages: queued }
    }
}

impl Default for NexusCore {
    fn default() -> (r: Self)
        ensures
            r.wf(),
            r.spec_channels().len() == 0,
            r.spec_next_id() == 1,
    {
        NexusCore::new()
    }
}

/// Channels deliver in the order of sending: on an open channel with room, a send
/// succeeds and appends the message; after receiving the `k` messages that were
/// already waiting, the next receive yields the message sent, and every earlier
/// receive yields the earlier messages in their order.
pub proof fn lemma_channel_fifo(queue: Seq<Message>, message: Message)
    requires
        queue.len() < CHANNEL_CAPACITY,
    ensures
        send_result(false, queue) == Ok::<(), ChannelError>(()),
        forall|k: int|
            0 <= k < queue.len() ==> #[trigger] receive_result(false, queue.push(message).skip(k)) == Ok::<
                Option<Message>,
                ChannelError,
            >(Some(queue[k])),
        receive_result(false, queue.push(message).skip(queue.len() as int)) == Ok::<
            Option<Message>,
            ChannelError,
        >(Some(message)),
{
    assert forall|k: int| 0 <= k < queue.len() implies #[trigger] receive_result(
        false,
        queue.push(message).skip(k),
    ) == Ok::<Option<Message>, ChannelError>(Some(queue[k])) by {
        assert(queue.push(message).skip(k)[0] == queue[k]);
    }
    assert(queue.push(message).skip(queue.len() as int)[0] == message);
}

} // verus!
