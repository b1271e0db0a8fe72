use heartwood::nexus::channel::{ChannelCapability, ChannelId, CHANNEL_CAPACITY};
use heartwood::nexus::message::{Message, MessagePriority, MessageType, SignalType};
use heartwood::nexus::nexus_core::NexusCore;
use heartwood::nexus::NexusError;

fn signal(s: SignalType) -> Message {
    Message::new(MessageType::Signal { signal_type: s }, MessagePriority::Normal)
}

fn signal_of(m: &Message) -> SignalType {
    match m.message_type {
        MessageType::Signal { signal_type } => signal_type,
        _ => panic!("not a signal"),
    }
}

#[test]
fn channels_get_increasing_ids() {
    let mut n = NexusCore::new();
    let (a, b) = n.create_channel().unwrap();
    assert_eq!(a, ChannelCapability { channel_id: ChannelId(1), can_send: true, can_receive: true });
    assert_eq!(a, b);
    let (c, _) = n.create_channel().unwrap();
    assert_eq!(c.channel_id, ChannelId(2));
}

#[test]
fn messages_arrive_in_order() {
    let mut n = NexusCore::new();
    let (cap, _) = n.create_channel().unwrap();
    let id = cap.channel_id;
    assert_eq!(n.try_receive(id).map(|m| m.is_none()), Ok(true));
    n.send(id, signal(SignalType::ThreadWeaving)).unwrap();
    n.send(id, signal(SignalType::ThreadResting)).unwrap();
    assert_eq!(signal_of(&n.try_receive(id).unwrap().unwrap()), SignalType::ThreadWeaving);
    assert_eq!(signal_of(&n.try_receive(id).unwrap().unwrap()), SignalType::ThreadResting);
    assert!(n.try_receive(id).unwrap().is_none());
}

#[test]
fn closed_and_full_channels() {
    let mut n = NexusCore::new();
    let (cap, _) = n.create_channel().unwrap();
    let id = cap.channel_id;
    for _ in 0..CHANNEL_CAPACITY {
        n.send(id, signal(SignalType::SystemHarmony)).unwrap();
    }
    assert!(matches!(n.send(id, signal(SignalType::SystemHarmony)), Err(NexusError::ChannelFull)));
    let stats = n.stats();
    assert_eq!(stats.total_channels, 1);
    assert_eq!(stats.active_channels, 1);
    assert_eq!(stats.total_queued_messages, CHANNEL_CAPACITY);
    n.close_channel(id).unwrap();
    assert!(matches!(n.send(id, signal(SignalType::SystemHarmony)), Err(NexusError::ChannelClosed)));
    assert_eq!(n.stats().active_channels, 0);
    for _ in 0..CHANNEL_CAPACITY {
        assert!(n.try_receive(id).unwrap().is_some());
    }
    assert!(matches!(n.try_receive(id), Err(NexusError::ChannelClosed)));
    assert!(matches!(n.send(ChannelId(77), signal(SignalType::SystemHarmony)), Err(NexusError::ChannelNotFound)));
    assert!(matches!(n.close_channel(ChannelId(77)), Err(NexusError::ChannelNotFound)));
}

#[test]
fn message_reply_capability() {
    let m = Message::new(MessageType::Data { payload: vec![1, 2, 3] }, MessagePriority::High);
    assert_eq!(m.reply_to, None);
    let m = m.with_reply(42);
    assert_eq!(m.reply_to, Some(42));
    assert_eq!(m.priority, MessagePriority::High);
    assert!(MessagePriority::Critical < MessagePriority::Idle);
}
