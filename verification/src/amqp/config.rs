//! Configuration of the AMQP broker connection.

use vstd::prelude::*;

verus! {

/// The scheme of the broker's URI.
#[derive(Clone, Debug, PartialEq, Eq)]
pub enum AMQPScheme {
    AMQP,
    AMQPS,
}

impl Default for AMQPScheme {
    fn default() -> (r: Self)
        ensures
            r == AMQPScheme::AMQP,
    {
        AMQPScheme::AMQP
    }
}

/// The virtual host used when the configuration names none.
pub fn default_vhost() -> (r: String)
    ensures
        r@ == "/"@,
{
    "/".to_owned()
}

/// Where and as whom to connect to the broker, and which exchange and
/// queue to use.
#[derive(Clone, Debug)]
pub struct AMQPConfig {
    pub scheme: AMQPScheme,
    pub host: String,
    pub port: Option<u16>,
    pub vhost: String,
    pub username: String,
    pub password: String,
    pub exchange_name: String,
    pub queue_name: String,
}

impl Default for AMQPConfig {
    fn default() -> (r: Self)
        ensures
            r.scheme == AMQPScheme::AMQP,
            r.host@ == "127.0.0.1"@,
            r.port is None,
            r.vhost@ == "/"@,
            r.username@ == ""@,
            r.password@ == ""@,
            r.exchange_name@ == ""@,
            r.queue_name@ == ""@,
    {
        Self {
            scheme: AMQPScheme::default(),
            host: "127.0.0.1".to_owned(),
            port: None,
            vhost: "/".to_owned(),
            username: "".to_owned(),
            password: "".to_owned(),
            // FIXME having defaults for this might not be
            // a good idea after all. The code should bail out
            // with an error if this is missing!
            exchange_name: "".to_owned(),
            queue_name: "".to_owned(),
        }
    }
}

/// `lapin::uri::AMQPScheme::default_port`: 5672 for plain AMQP, 5671 for
/// AMQP over TLS.
#[verifier::external_body]
fn scheme_default_port(scheme: &AMQPScheme) -> (p: u16)
    ensures
        p == match scheme {
            AMQPScheme::AMQP => 5672u16,
            AMQPScheme::AMQPS => 5671u16,
        },
{
    let scheme = match scheme {
        AMQPScheme::AMQP => lapin::uri::AMQPScheme::AMQP,
        AMQPScheme::AMQPS => lapin::uri::AMQPScheme::AMQPS,
    };
    scheme.default_port()
}

impl AMQPConfig {
    /// The port that a connection uses: the configured one, else the
    /// default port of plain AMQP. Connections speak plain AMQP whatever
    /// scheme is configured.
    pub fn connection_port(&self) -> (p: u16)
        ensures
            p == match self.port {
                Some(port) => port,
                None => 5672u16,
            },
    {
        match self.port {
            Some(port) => port,
            None => scheme_default_port(&AMQPScheme::AMQP),
        }
    }
}

} // verus!
