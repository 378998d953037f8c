use bytes::Bytes;
use webwire::rpc::engine::{
    consumer_result, frame_action, reply_for, request_message, response_message, settle_response,
    FrameAction, RequestTable,
};
use webwire::rpc::message::{ErrorKind, Message};
use webwire::rpc::transport::{FrameError, TransportError};
use webwire::service::consumer::ConsumerError;
use webwire::service::provider::{provider_for, ProviderError};

#[test]
fn frame_actions() {
    assert!(matches!(frame_action(&Bytes::from("0 1")), Ok(FrameAction::Ignore)));
    assert!(matches!(frame_action(&Bytes::from("-1")), Ok(FrameAction::Shutdown)));
    assert!(matches!(frame_action(&Bytes::from("garbage")), Err(FrameError::ParseError)));
    match frame_action(&Bytes::from("3 1 1 42")) {
        Ok(FrameAction::HandleResponse(r)) => {
            assert_eq!(r.request_message_id, 1);
            assert_eq!(r.data, Ok(Bytes::from("42")));
        }
        _ => panic!(),
    }
    match frame_action(&Bytes::from("2 7 Test.get_answer")) {
        Ok(FrameAction::HandleRequest(r)) => {
            assert_eq!(r.message_id, 7);
            assert_eq!(r.service, "Test");
        }
        _ => panic!(),
    }
}

#[test]
fn request_frames() {
    let r = request_message(false, 1, "Test", "get_answer", Bytes::from(""));
    assert_eq!(r.to_bytes(), Bytes::copy_from_slice(b"2 1 Test.get_answer"));
    let n = request_message(true, 2, "Test", "ping", Bytes::from("x"));
    assert_eq!(n.to_bytes(), Bytes::from("1 2 Test.ping x"));
}

#[test]
fn replies_to_requests_only() {
    assert!(reply_for(Ok(Bytes::from("1")), true).is_none());
    assert!(matches!(reply_for(Ok(Bytes::from("1")), false), Some(Ok(b)) if b == Bytes::from("1")));
}

#[test]
fn provider_errors_on_the_wire() {
    assert_eq!(ProviderError::ServiceNotFound.to_bytes(), Bytes::from("ServiceNotFound"));
    assert_eq!(ProviderError::MethodNotFound.to_bytes(), Bytes::from("MethodNotFound"));
    let json_err = serde_json::from_str::<u32>("x").unwrap_err();
    assert_eq!(ProviderError::DeserializerError(json_err).to_bytes(), Bytes::from("DeserializerError"));
    let json_err = serde_json::from_str::<u32>("x").unwrap_err();
    assert_eq!(ProviderError::SerializerError(json_err).to_bytes(), Bytes::from("InternalError"));

    let r = response_message(5, 4, Err(ProviderError::MethodNotFound));
    assert_eq!(r.to_bytes(), Bytes::from("4 5 4 MethodNotFound"));
    // the other side reads the name of a missing method as such
    match Message::parse(&r.to_bytes()) {
        Some(Message::Response(resp)) => assert_eq!(resp.data, Err(ErrorKind::MethodNotFound)),
        _ => panic!(),
    }
    let json_err = serde_json::from_str::<u32>("x").unwrap_err();
    let r = response_message(6, 4, Err(ProviderError::DeserializerError(json_err)));
    assert_eq!(r.to_bytes(), Bytes::from("4 6 4 DeserializerError"));
    let r = response_message(7, 4, Ok(Bytes::from("42")));
    assert_eq!(r.to_bytes(), Bytes::from("3 7 4 42"));
}

#[test]
fn consumer_results() {
    assert!(matches!(consumer_result(Ok(Bytes::from("42"))), Ok(b) if b == Bytes::from("42")));
    assert!(matches!(consumer_result(Err(ErrorKind::ServiceNotFound)), Err(ConsumerError::ServiceNotFound)));
    assert!(matches!(consumer_result(Err(ErrorKind::MethodNotFound)), Err(ConsumerError::MethodNotFound)));
    assert!(matches!(consumer_result(Err(ErrorKind::ProviderError)), Err(ConsumerError::ProviderError)));
    assert!(matches!(
        consumer_result(Err(ErrorKind::Other(Bytes::from("x")))),
        Err(ConsumerError::InvalidData(b)) if b == Bytes::from("x")
    ));
}

#[test]
fn settled_responses() {
    assert!(matches!(settle_response(true, Some(Ok(Bytes::new()))), Err(ConsumerError::Broadcast)));
    assert!(matches!(settle_response(false, None), Err(ConsumerError::Disconnected)));
    assert!(matches!(settle_response(false, Some(Ok(Bytes::from("42")))), Ok(b) if b == Bytes::from("42")));
}

#[test]
fn error_messages() {
    assert_eq!(TransportError::Disconnected.message(), "Disconnected");
    assert_eq!(FrameError::ParseError.message(), "ParseError");
    assert_eq!(FrameError::HandlerGone.message(), "HandlerGone");
}

#[test]
fn request_table_matches_responses() {
    let mut table = RequestTable::new();
    assert_eq!(table.last_message_id(), 0);
    let (tx1, mut rx1) = tokio::sync::oneshot::channel();
    let (tx2, mut rx2) = tokio::sync::oneshot::channel();
    assert_eq!(table.register(tx1), 1);
    assert_eq!(table.next_message_id(), 2);
    assert_eq!(table.register(tx2), 3);
    assert_eq!(table.last_message_id(), 3);
    assert!(table.take(2).is_none());
    let waiting = table.take(3).expect("request 3 waits");
    waiting.send(Ok(Bytes::from("42"))).unwrap();
    assert_eq!(rx2.try_recv().unwrap().unwrap(), Bytes::from("42"));
    assert!(table.take(3).is_none());
    table.clear();
    assert!(table.take(1).is_none());
    assert!(rx1.try_recv().is_err());
    assert_eq!(table.next_message_id(), 4);
}

#[test]
fn provider_lookup() {
    assert!(matches!(provider_for(Some(7u32)), Ok(7)));
    assert!(matches!(provider_for::<u32>(None), Err(ProviderError::ServiceNotFound)));
}
