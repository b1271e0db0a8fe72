//! The Nexus: message-passing IPC over channels.
use vstd::prelude::*;

pub mod message;
pub mod channel;
pub mod nexus_core;

verus! {

/// Errors reported by the Nexus.
#[derive(Debug, Clone, Copy, PartialEq, Eq, Structural)]
pub enum NexusError {
    /// No more channels can be created.
    OutOfChannels,
    /// No channel with that identifier.
    ChannelNotFound,
    /// The channel's queue is full.
    ChannelFull,
    /// The channel has been closed.
    ChannelClosed,
}

} // verus!
