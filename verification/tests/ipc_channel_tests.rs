use moda_core::ipc::{BroadcastChannel, ChannelManager, IpcChannel, IpcError, IpcMessage, MessagePriority, MessageType};
use moda_core::ipc::{IpcProtocol, ZeroCopyMessage};
use std::time::Duration;

#[test]
fn test_ipc_channel() {
    let mut channel = IpcChannel::new();

    let message = IpcMessage::new("source", "target", vec![1, 2, 3]).unwrap();
    assert!(channel.send(message.clone()).is_ok());

    let received = channel.receive().unwrap();
    assert_eq!(received.source, "source");
    assert_eq!(received.target, "target");
}

#[test]
fn test_message_priority() {
    let message = IpcMessage::new("source", "target", vec![1, 2, 3]).unwrap().with_priority(MessagePriority::High);
    assert_eq!(message.priority, MessagePriority::High);
}

#[test]
fn test_message_type() {
    let message = IpcMessage::new("source", "target", vec![1, 2, 3]).unwrap().with_type(MessageType::Request);
    assert_eq!(message.message_type, MessageType::Request);
}

#[test]
fn test_message_ttl() {
    let message = IpcMessage::new("source", "target", vec![1, 2, 3]).unwrap().with_ttl(60);
    assert!(!message.is_expired());
}

#[test]
fn test_broadcast_channel() {
    let mut broadcast = BroadcastChannel::new();
    broadcast.add_receiver("test_receiver");

    let message = IpcMessage::new("source", "broadcast", vec![1, 2, 3]).unwrap();
    assert!(broadcast.broadcast(message).is_ok());
}

#[test]
fn test_channel_manager() {
    let mut manager = ChannelManager::new();

    assert!(manager.create_channel("test_channel").is_ok());
    assert!(manager.create_channel("test_channel").is_err());

    let channel = manager.get_channel("test_channel");
    assert!(channel.is_ok());

    assert!(manager.remove_channel("test_channel").is_ok());
    assert!(manager.remove_channel("nonexistent").is_err());
}

#[test]
fn test_channel_manager_broadcast() {
    let mut manager = ChannelManager::new();

    assert!(manager.create_broadcast_channel("test_broadcast").is_ok());
    assert!(manager.create_broadcast_channel("test_broadcast").is_err());

    let broadcasts = manager.list_broadcast_channels();
    assert!(broadcasts.contains(&"test_broadcast".to_string()));
}

#[test]
fn test_receive_with_timeout() {
    let mut channel = IpcChannel::new();

    let result = channel.receive_with_timeout(Duration::from_millis(100));
    assert!(result.is_ok());
    assert!(result.unwrap().is_none());
}

#[test]
fn channel_delivers_in_send_order() {
    let mut channel = IpcChannel::new();
    for i in 0u8..3 {
        channel.send(IpcMessage::from_parts(format!("m{}", i), "a", "b", vec![i], 5)).unwrap();
    }
    assert_eq!(channel.receive().unwrap().id, "m0");
    assert_eq!(channel.try_receive().unwrap().unwrap().id, "m1");
    assert_eq!(channel.receive_with_timeout(Duration::from_millis(1)).unwrap().unwrap().id, "m2");
    assert!(channel.try_receive().unwrap().is_none());
}

#[test]
fn broadcast_reaches_every_receiver_once() {
    let mut broadcast = BroadcastChannel::new();
    broadcast.add_receiver("one");
    broadcast.add_receiver("two");
    let message = IpcMessage::from_parts("id-1".to_string(), "src", "all", vec![9], 7);
    assert!(broadcast.broadcast(message).is_ok());
    let a = broadcast.receive("one").unwrap();
    let b = broadcast.receive("two").unwrap();
    assert_eq!(a.payload, vec![9]);
    assert_eq!(b.id, "id-1");
    assert!(broadcast.receive("one").is_none());
    assert!(broadcast.receive("nobody").is_none());
}

#[test]
fn channel_manager_error_messages() {
    let mut manager = ChannelManager::new();
    manager.create_channel("c").unwrap();
    match manager.create_channel("c") {
        Err(IpcError::ChannelError(m)) => assert_eq!(m, "Channel 'c' already exists"),
        _ => panic!("expected a channel error"),
    }
    match manager.get_channel("x") {
        Err(IpcError::ChannelError(m)) => assert_eq!(m, "Channel 'x' not found"),
        _ => panic!("expected a channel error"),
    }
    match manager.create_broadcast_channel("c") {
        Ok(()) => {}
        _ => panic!("broadcast names are apart from channel names"),
    }
    match manager.create_broadcast_channel("c") {
        Err(IpcError::ChannelError(m)) => assert_eq!(m, "Broadcast channel 'c' already exists"),
        _ => panic!("expected a channel error"),
    }
    assert_eq!(manager.list_channels(), vec!["c".to_string()]);
}

#[test]
fn channel_from_manager_keeps_messages() {
    let mut manager = ChannelManager::new();
    manager.create_channel("q").unwrap();
    {
        let ch = manager.get_channel("q").unwrap();
        ch.send(IpcMessage::from_parts("x".to_string(), "a", "b", vec![], 1)).unwrap();
    }
    let ch = manager.get_channel("q").unwrap();
    assert_eq!(ch.try_receive().unwrap().unwrap().id, "x");
}

#[test]
fn expiry_by_time_to_live() {
    let message = IpcMessage::from_parts("e".to_string(), "a", "b", vec![], 100).with_ttl(10);
    assert!(!message.is_expired_at(110));
    assert!(message.is_expired_at(111));
    let forever = IpcMessage::from_parts("f".to_string(), "a", "b", vec![], 100);
    assert!(!forever.is_expired_at(u64::MAX));
}

#[test]
fn fresh_message_defaults() {
    let message = IpcMessage::new("s", "t", vec![1]).unwrap();
    assert_eq!(message.id.len(), 36);
    assert_eq!(message.priority, MessagePriority::Normal);
    assert_eq!(message.message_type, MessageType::Event);
    assert!(message.ttl.is_none());
    assert!(message.session_token.is_none());
    let other = IpcMessage::new("s", "t", vec![1]).unwrap();
    assert_ne!(message.id, other.id);
    assert_eq!(message.with_session_token("tok").session_token, Some("tok".to_string()));
}

#[test]
fn protocol_support() {
    assert!(IpcProtocol::Json.check_supported().is_ok());
    assert!(IpcProtocol::Binary.check_supported().is_ok());
    match IpcProtocol::Custom("x".to_string()).check_supported() {
        Err(IpcError::SerializationError(m)) => assert_eq!(m, "Custom protocol 'x' not implemented"),
        _ => panic!("expected a serialization error"),
    }
}

#[test]
fn zero_copy_messages() {
    let payload = bytes::Bytes::from_static(b"shared");
    let m = ZeroCopyMessage::new("a", "b", payload.clone()).unwrap();
    assert_eq!(m.payload, payload);
    assert_eq!(m.id.len(), 36);
    assert!(!m.is_expired());
    let mut fixed = ZeroCopyMessage::from_parts("z".to_string(), "a", "b", payload, 50);
    assert_eq!(fixed.timestamp, 50);
    fixed.ttl = Some(5);
    assert!(!fixed.is_expired_at(55));
    assert!(fixed.is_expired_at(56));
}
