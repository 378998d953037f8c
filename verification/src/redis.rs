//! Webwire RPC over redis: requests pushed to a list as notification
//! frames, and broadcasts published on channels named
//! `prefix:service:method`.

use vstd::prelude::*;
use bytes::Bytes;

use crate::buffer::bytes_view;
use crate::rpc::message::{parse_frame, request_frame, Message, MessageModel, Request, RequestModel};
use crate::text::{
    ascii_char, join_ascii, lemma_split_last_join, split_last, split_last_ascii, COLON,
};

verus! {

/// The notification frame that `RedisConsumer` pushes for a call: a
/// notification with message id 0.
pub fn notification_frame(service: &str, method: &str, data: Bytes) -> (r: Bytes)
    ensures
        bytes_view(r) == request_frame(
            RequestModel {
                is_notification: true,
                message_id: 0,
                service: service@,
                method: method@,
                data: bytes_view(data),
            },
        ),
{
    let request = Request {
        is_notification: true,
        message_id: 0,
        service: service.to_owned(),
        method: method.to_owned(),
        data,
    };
    request.to_bytes()
}

/// What `RedisProvider` does with a frame popped from its list.
pub enum QueuedFrame {
    /// A request or notification: the provider calls the method it names.
    Call(Request),
    /// A message of another kind, which the provider ignores.
    Unsupported(Message),
    /// Bytes that do not parse, which the provider ignores.
    Unparsable,
}

/// Classify a frame popped from the provider's list.
pub fn queued_frame(data: &Bytes) -> (r: QueuedFrame)
    ensures
        match parse_frame(bytes_view(*data)) {
            None => r is Unparsable,
            Some(MessageModel::Request(m)) => r matches QueuedFrame::Call(req) && req@ == m,
            Some(m) => r matches QueuedFrame::Unsupported(msg) && msg@ == m,
        },
{
    match Message::parse(data) {
        None => QueuedFrame::Unparsable,
        Some(Message::Request(request)) => QueuedFrame::Call(request),
        Some(message) => QueuedFrame::Unsupported(message),
    }
}

/// The channel that `RedisPublisher` publishes a broadcast on:
/// `prefix:service:method`.
pub fn topic(prefix: &str, service: &str, method: &str) -> (r: String)
    ensures
        r@ == prefix@ + seq![':'] + service@ + seq![':'] + method@,
{
    proof {
        assert(ascii_char(COLON) == ':');
    }
    let head = join_ascii(prefix, COLON, service);
    join_ascii(head.as_str(), COLON, method)
}

/// The channel pattern that `RedisListener` subscribes to for a service:
/// `prefix:service:*`.
pub fn subscription_pattern(prefix: &str, service: &str) -> (r: String)
    ensures
        r@ == prefix@ + seq![':'] + service@ + seq![':', '*'],
{
    let r = topic(prefix, service, "*");
    proof {
        reveal_strlit("*");
        assert(r@ =~= prefix@ + seq![':'] + service@ + seq![':', '*']);
    }
    r
}

/// The service and method that `channel.rsplit(':')` yields first: the
/// method is the text after the last `:`, the service the text between
/// the `:` before it (or the start) and that last `:`.
pub open spec fn channel_route_of(channel: Seq<char>) -> Option<(Seq<char>, Seq<char>)> {
    match split_last(channel, ':') {
        Some((rest, method)) => Some(
            (
                match split_last(rest, ':') {
                    Some((_, service)) => service,
                    None => rest,
                },
                method,
            ),
        ),
        None => None,
    }
}

/// The service and method that a broadcast channel addresses; `None` when
/// the channel name holds no `:`.
pub fn channel_route(channel: &str) -> (r: Option<(String, String)>)
    ensures
        match r {
            Some((service, method)) => channel_route_of(channel@) == Some((service@, method@)),
            None => channel_route_of(channel@) is None,
        },
{
    proof {
        assert(ascii_char(COLON) == ':');
    }
    match split_last_ascii(channel, COLON) {
        None => None,
        Some((rest, method)) => match split_last_ascii(rest.as_str(), COLON) {
            Some((_, service)) => Some((service, method)),
            None => Some((rest, method)),
        },
    }
}

/// A listener routes a broadcast to the service and method it was
/// published for, when neither name holds a `:`.
pub proof fn law_topic_roundtrip(prefix: Seq<char>, service: Seq<char>, method: Seq<char>)
    requires
        !service.contains(':'),
        !method.contains(':'),
    ensures
        channel_route_of(prefix + seq![':'] + service + seq![':'] + method) == Some((service, method)),
{
    let rest = prefix + seq![':'] + service;
    lemma_split_last_join(rest, ':', method);
    lemma_split_last_join(prefix, ':', service);
}

} // verus!
