use bytes::Bytes;
use webwire::amqp::config::{default_vhost, AMQPConfig, AMQPScheme};
use webwire::amqp::{binding_key, delivery_action, route_of, routing_key, AMQPConsumer, DeliveryAction};
use webwire::redis::{channel_route, notification_frame, queued_frame, subscription_pattern, topic, QueuedFrame};
use webwire::rpc::message::Message;
use webwire::transport::websocket::{after_frame, close_reason, receive_step, AfterFrame, Incoming, Opcode, ReceiveStep};
use webwire::rpc::transport::FrameError;
use webwire::utils::{AtomicWeak, WeakRef};

#[test]
fn amqp_config_defaults() {
    let c = AMQPConfig::default();
    assert_eq!(c.scheme, AMQPScheme::AMQP);
    assert_eq!(c.host, "127.0.0.1");
    assert_eq!(c.port, None);
    assert_eq!(c.vhost, "/");
    assert_eq!(c.username, "");
    assert_eq!(c.exchange_name, "");
    assert_eq!(default_vhost(), "/");
    assert_eq!(AMQPScheme::default(), AMQPScheme::AMQP);
    let consumer = AMQPConsumer::new(c);
    assert_eq!(consumer.config.queue_name, "");
}

#[test]
fn amqp_routing() {
    assert_eq!(routing_key("chat", "send"), "chat.send");
    assert_eq!(binding_key("chat"), "chat.*");
    assert_eq!(route_of("chat.send"), Some(("chat".to_string(), "send".to_string())));
    assert_eq!(route_of("a.b.c"), Some(("a.b".to_string(), "c".to_string())));
    assert_eq!(route_of("nodot"), None);
    let key = routing_key("x.y", "z");
    assert_eq!(route_of(&key), Some(("x.y".to_string(), "z".to_string())));
}

#[test]
fn redis_channels() {
    assert_eq!(topic("test_webwire", "test_service", "test_method"), "test_webwire:test_service:test_method");
    assert_eq!(subscription_pattern("p", "s"), "p:s:*");
    assert_eq!(
        channel_route("test_webwire:test_service:test_method"),
        Some(("test_service".to_string(), "test_method".to_string()))
    );
    assert_eq!(channel_route("a:b:c:d"), Some(("c".to_string(), "d".to_string())));
    assert_eq!(channel_route("s:m"), Some(("s".to_string(), "m".to_string())));
    assert_eq!(channel_route("nocolon"), None);
    assert_eq!(
        notification_frame("test_service", "test_method", Bytes::from_static(b"test_data")),
        Bytes::from("1 0 test_service.test_method test_data")
    );
}

#[test]
fn websocket_steps() {
    assert_eq!(receive_step(Incoming::Message(Opcode::Ping)), ReceiveStep::ReplyPong);
    assert_eq!(receive_step(Incoming::Message(Opcode::Binary)), ReceiveStep::Dispatch);
    assert_eq!(receive_step(Incoming::Message(Opcode::Text)), ReceiveStep::Dispatch);
    assert_eq!(receive_step(Incoming::Message(Opcode::Pong)), ReceiveStep::Ignore);
    assert_eq!(receive_step(Incoming::Message(Opcode::Close)), ReceiveStep::Stop);
    assert_eq!(receive_step(Incoming::Failed), ReceiveStep::Stop);
    assert_eq!(receive_step(Incoming::Ended), ReceiveStep::Stop);
    assert_eq!(after_frame(Ok(())), AfterFrame::Continue);
    assert_eq!(after_frame(Err(FrameError::HandlerGone)), AfterFrame::Stop);
    assert_eq!(after_frame(Err(FrameError::ParseError)), AfterFrame::CloseAndStop);
    assert_eq!(close_reason(), (1, "Unable to parse frame"));
}

#[test]
fn atomic_weak() {
    let target = std::sync::Arc::new(5u32);
    let slot: AtomicWeak<u32> = AtomicWeak::default();
    assert!(slot.upgrade().is_none());
    assert!(slot.replace(WeakRef(std::sync::Arc::downgrade(&target))).is_none());
    assert_eq!(slot.upgrade().map(|a| *a), Some(5));
    let other = std::sync::Arc::new(6u32);
    let previous = slot.replace(WeakRef(std::sync::Arc::downgrade(&other)));
    assert!(previous.is_some());
    drop(other);
    assert!(slot.upgrade().is_none());
    let fresh = AtomicWeak::new(WeakRef(std::sync::Arc::downgrade(&target)));
    assert_eq!(fresh.upgrade().map(|a| *a), Some(5));
}

#[test]
fn amqp_connection_port() {
    let mut c = AMQPConfig::default();
    assert_eq!(c.connection_port(), 5672);
    c.scheme = AMQPScheme::AMQPS;
    assert_eq!(c.connection_port(), 5672);
    c.port = Some(1234);
    assert_eq!(c.connection_port(), 1234);
}

#[test]
fn redis_queued_frames() {
    match queued_frame(&Bytes::from("1 0 test_service.test_method test_data")) {
        QueuedFrame::Call(r) => {
            assert!(r.is_notification);
            assert_eq!(r.service, "test_service");
            assert_eq!(r.method, "test_method");
            assert_eq!(r.data, Bytes::from("test_data"));
        }
        _ => panic!(),
    }
    assert!(matches!(queued_frame(&Bytes::from("2 5 a.b")), QueuedFrame::Call(_)));
    assert!(matches!(queued_frame(&Bytes::from("-1")), QueuedFrame::Unsupported(Message::Disconnect)));
    assert!(matches!(queued_frame(&Bytes::from("3 1 2")), QueuedFrame::Unsupported(Message::Response(_))));
    assert!(matches!(queued_frame(&Bytes::from("nonsense")), QueuedFrame::Unparsable));
}

#[test]
fn amqp_delivery_actions() {
    assert_eq!(delivery_action(true, true), DeliveryAction::Ack);
    assert_eq!(delivery_action(true, false), DeliveryAction::Reject);
    assert_eq!(delivery_action(false, false), DeliveryAction::Reject);
    assert_eq!(delivery_action(false, true), DeliveryAction::Reject);
}
