//! Webwire RPC over an AMQP broker: requests are published with the
//! routing key `service.method`, and providers consume them from a queue
//! bound to `service.*`.

pub mod config;

use vstd::prelude::*;

use crate::text::{ascii_char, join_ascii, lemma_split_last_join, split_last, split_last_ascii, DOT};
use config::AMQPConfig;

verus! {

/// A consumer that publishes requests to the broker.
pub struct AMQPConsumer {
    pub config: AMQPConfig,
}

impl AMQPConsumer {
    pub fn new(config: AMQPConfig) -> (r: Self)
        ensures
            r.config == config,
    {
        Self { config }
    }
}

/// The routing key of a request: `service.method`.
pub fn routing_key(service: &str, method: &str) -> (r: String)
    ensures
        r@ == service@ + seq!['.'] + method@,
{
    proof {
        assert(ascii_char(DOT) == '.');
    }
    join_ascii(service, DOT, method)
}

/// The binding key of a provided service's queue: `service.*`.
pub fn binding_key(service: &str) -> (r: String)
    ensures
        r@ == service@ + seq!['.', '*'],
{
    let r = routing_key(service, "*");
    proof {
        reveal_strlit("*");
        assert(r@ =~= service@ + seq!['.', '*']);
    }
    r
}

/// The service and method that a delivery's routing key addresses: the
/// text before and after its last `.`; `None` for an unsupported key.
pub fn route_of(routing_key: &str) -> (r: Option<(String, String)>)
    ensures
        match r {
            Some((service, method)) => split_last(routing_key@, '.') == Some((service@, method@)),
            None => split_last(routing_key@, '.') is None,
        },
{
    proof {
        assert(ascii_char(DOT) == '.');
    }
    split_last_ascii(routing_key, DOT)
}

/// What a provider does with a delivery once it has handled it.
#[derive(Debug, Clone, Copy, PartialEq, Eq)]
pub enum DeliveryAction {
    /// Acknowledge the delivery.
    Ack,
    /// Reject the delivery.
    Reject,
}

/// A delivery is acknowledged when its routing key names a method
/// (`routed`) and the call of that method succeeded (`call_ok`); it is
/// rejected otherwise.
pub fn delivery_action(routed: bool, call_ok: bool) -> (r: DeliveryAction)
    ensures
        r == (if routed && call_ok {
            DeliveryAction::Ack
        } else {
            DeliveryAction::Reject
        }),
{
    if routed && call_ok {
        DeliveryAction::Ack
    } else {
        DeliveryAction::Reject
    }
}

/// A provider routes a delivery to the service and method that the
/// consumer published it for, when the method name holds no dot.
pub proof fn law_routing_key_roundtrip(service: Seq<char>, method: Seq<char>)
    requires
        !method.contains('.'),
    ensures
        split_last(service + seq!['.'] + method, '.') == Some((service, method)),
{
    lemma_split_last_join(service, '.', method);
}

} // verus!
