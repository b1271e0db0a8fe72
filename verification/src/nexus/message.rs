//! Message definitions: the packets carried by the Nexus.
use vstd::prelude::*;

verus! {

/// A message, the unit of communication between threads and services.
#[derive(Debug, Clone)]
pub struct Message {
    /// The type and payload of the message.
    pub message_type: MessageType,
    /// Priority for routing.
    pub priority: MessagePriority,
    /// The sender's capability, for replies.
    pub reply_to: Option<u64>,
}

impl Message {
    /// A message with no reply capability.
    pub fn new(message_type: MessageType, priority: MessagePriority) -> (r: Self)
        ensures
            r.message_type == message_type,
            r.priority == priority,
            r.reply_to == None::<u64>,
    {
        Message { message_type, priority, reply_to: None }
    }

    /// The same message, carrying `reply_capability` for the answer.
    pub fn with_reply(self, reply_capability: u64) -> (r: Self)
        ensures
            r.message_type == self.message_type,
            r.priority == self.priority,
            r.reply_to == Some(reply_capability),
    {
        let mut m = self;
        m.reply_to = Some(reply_capability);
        m
    }
}

/// The type and payload of a message.
#[derive(Debug, Clone)]
pub enum MessageType {
    /// A request to allocate resources.
    ResourceRequest { resource_type: ResourceType, amount: usize },
    /// A grant of resources.
    ResourceGrant { resource_type: ResourceType, handle: u64 },
    /// A signal (lightweight notification).
    Signal { signal_type: SignalType },
    /// Raw data transfer.
    Data { payload: Vec<u8> },
    /// A query for information.
    Query { query_type: QueryType },
    /// A response to a query.
    Response { data: Vec<u8> },
    /// Notification that the system is under stress.
    DisharmonyAlert { severity: u8, description: &'static str },
}

/// Kinds of resources that can be requested.
#[derive(Debug, Clone, Copy, PartialEq, Eq, Structural)]
pub enum ResourceType {
    Memory,
    CpuTime,
    FileHandle,
    ChannelCapability,
}

/// Signals between threads.
#[derive(Debug, Clone, Copy, PartialEq, Eq, Structural)]
pub enum SignalType {
    /// Thread started.
    ThreadWeaving,
    /// Thread idle.
    ThreadResting,
    /// Thread blocked or in error.
    ThreadTangled,
    /// Thread exiting.
    ThreadFading,
    /// System in good state.
    SystemHarmony,
    /// System under stress.
    SystemDisharmony,
    /// Request a service to shut down gracefully.
    ServiceShutdown,
}

/// Kinds of queries.
#[derive(Debug, Clone, Copy, PartialEq, Eq, Structural)]
pub enum QueryType {
    SystemStatus,
    ResourceAvailability,
    ThreadState,
    MemoryUsage,
}

/// Message priority, most urgent first.
#[derive(Debug, Clone, Copy, PartialEq, Eq, PartialOrd, Ord)]
pub enum MessagePriority {
    /// System-critical messages.
    Critical,
    /// Important user-facing operations.
    High,
    /// Standard operations.
    Normal,
    /// Background tasks.
    Low,
    /// Lowest priority.
    Idle,
}

} // verus!
