use bytes::Bytes;
use webwire::rpc::message::{ErrorKind, Heartbeat, Message, Request, Response};

#[test]
fn test_parse_heartbeat() {
    assert_eq!(
        Message::parse(&Bytes::from("0 42")),
        Some(Message::Heartbeat(Heartbeat {
            last_message_id: 42
        }))
    );
}

#[test]
fn test_parse_notification() {
    assert_eq!(
        Message::parse(&Bytes::from("1 43 example.hello world")),
        Some(Message::Request(Request {
            is_notification: true,
            message_id: 43,
            service: "example".to_string(),
            method: "hello".to_string(),
            data: Bytes::from("world"),
        }))
    );
}

#[test]
fn test_parse_notification_no_data() {
    assert_eq!(
        Message::parse(&Bytes::from("1 44 example.ping")),
        Some(Message::Request(Request {
            is_notification: true,
            message_id: 44,
            service: "example".to_string(),
            method: "ping".to_string(),
            data: Bytes::default(),
        }))
    );
}

#[test]
fn test_parse_request() {
    assert_eq!(
        Message::parse(&Bytes::from("2 45 example.add [4, 5]")),
        Some(Message::Request(Request {
            is_notification: false,
            message_id: 45,
            service: "example".to_string(),
            method: "add".to_string(),
            data: Bytes::from("[4, 5]"),
        }))
    );
}

#[test]
fn test_parse_request_no_data() {
    assert_eq!(
        Message::parse(&Bytes::from("2 46 example.get_time")),
        Some(Message::Request(Request {
            is_notification: false,
            message_id: 46,
            service: "example".to_string(),
            method: "get_time".to_string(),
            data: Bytes::default(),
        }))
    );
}

#[test]
fn test_parse_response() {
    assert_eq!(
        Message::parse(&Bytes::from("3 47 45 9")),
        Some(Message::Response(Response {
            message_id: 47,
            request_message_id: 45,
            data: Ok(Bytes::from("9")),
        }))
    );
}

#[test]
fn test_parse_response_no_data() {
    assert_eq!(
        Message::parse(&Bytes::from("3 48 46")),
        Some(Message::Response(Response {
            message_id: 48,
            request_message_id: 46,
            data: Ok(Bytes::default()),
        }))
    );
}

#[test]
fn test_parse_error_provider_error() {
    assert_eq!(
        Message::parse(&Bytes::from("4 48 46")),
        Some(Message::Response(Response {
            message_id: 48,
            request_message_id: 46,
            data: Err(ErrorKind::ProviderError),
        }))
    );
}

#[test]
fn test_parse_error_service_not_found() {
    assert_eq!(
        Message::parse(&Bytes::from("4 48 46 ServiceNotFound")),
        Some(Message::Response(Response {
            message_id: 48,
            request_message_id: 46,
            data: Err(ErrorKind::ServiceNotFound),
        }))
    );
}

#[test]
fn test_parse_error_method_not_found() {
    assert_eq!(
        Message::parse(&Bytes::from("4 48 46 MethodNotFound")),
        Some(Message::Response(Response {
            message_id: 48,
            request_message_id: 46,
            data: Err(ErrorKind::MethodNotFound),
        }))
    );
}

#[test]
fn test_parse_error_other() {
    assert_eq!(
        Message::parse(&Bytes::from("4 48 46 I'm a teapot!")),
        Some(Message::Response(Response {
            message_id: 48,
            request_message_id: 46,
            data: Err(ErrorKind::Other(Bytes::from("I'm a teapot!"))),
        }))
    );
}

#[test]
fn test_parse_disconnect() {
    assert_eq!(
        Message::parse(&Bytes::from("-1")),
        Some(Message::Disconnect)
    );
}
