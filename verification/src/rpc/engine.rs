//! The decisions of the RPC engine, which matches requests and responses
//! between the transport and the service layer: what to do with a frame,
//! what to answer to a request, and what a waiting caller receives.

use vstd::prelude::*;
use bytes::Bytes;
use dashmap::DashMap;
use tokio::sync::oneshot;

use crate::buffer::bytes_view;
use crate::rpc::message::{
    error_kind_of, law_error_reply, method_not_found_text, parse_frame, response_frame,
    service_not_found_text, ErrorKind, ErrorKindModel, Message, MessageModel, Request,
    RequestModel, Response, ResponseModel, MAX_SAFE_INTEGER,
};
use crate::rpc::transport::FrameError;
use crate::service::consumer::ConsumerError;
use crate::service::provider::{
    deserializer_error_text, internal_error_text, provider_error_text, ProviderError,
};

verus! {

/// What the engine does with a received frame.
pub enum FrameAction {
    /// Heartbeats are ignored until reliable messaging is implemented.
    Ignore,
    /// Hand the request or notification to the service layer.
    HandleRequest(Request),
    /// Complete the pending request that the response answers.
    HandleResponse(Response),
    /// The remote side disconnected: shut the engine down.
    Shutdown,
}

/// What `FrameHandler::handle_frame` does with a frame: a frame that does
/// not parse is refused with `FrameError::ParseError`.
pub fn frame_action(frame: &Bytes) -> (r: Result<FrameAction, FrameError>)
    ensures
        match parse_frame(bytes_view(*frame)) {
            None => r == Err::<FrameAction, FrameError>(FrameError::ParseError),
            Some(MessageModel::Heartbeat(_)) => r matches Ok(FrameAction::Ignore),
            Some(MessageModel::Request(m)) => r matches Ok(FrameAction::HandleRequest(req)) && req@
                == m,
            Some(MessageModel::Response(m)) => r matches Ok(FrameAction::HandleResponse(resp))
                && resp@ == m,
            Some(MessageModel::Disconnect) => r matches Ok(FrameAction::Shutdown),
        },
{
    match Message::parse(frame) {
        None => Err(FrameError::ParseError),
        Some(Message::Heartbeat(_)) => Ok(FrameAction::Ignore),
        Some(Message::Request(request)) => Ok(FrameAction::HandleRequest(request)),
        Some(Message::Response(response)) => Ok(FrameAction::HandleResponse(response)),
        Some(Message::Disconnect) => Ok(FrameAction::Shutdown),
    }
}

/// The request or notification that `notify` and `request` send.
pub fn request_message(
    is_notification: bool,
    message_id: u64,
    service: &str,
    method: &str,
    data: Bytes,
) -> (r: Request)
    ensures
        r@ == (RequestModel {
            is_notification,
            message_id,
            service: service@,
            method: method@,
            data: bytes_view(data),
        }),
{
    Request {
        is_notification,
        message_id,
        service: service.to_owned(),
        method: method.to_owned(),
        data,
    }
}

/// The reply to a provider's result, if one is sent: requests get one,
/// notifications do not.
pub fn reply_for(result: Result<Bytes, ProviderError>, is_notification: bool) -> (r: Option<
    Result<Bytes, ProviderError>,
>)
    ensures
        is_notification ==> r is None,
        !is_notification ==> r == Some(result),
{
    if is_notification {
        None
    } else {
        Some(result)
    }
}

/// The model of the response that answers a provider's result: an error
/// is sent as `ErrorKind::Other` with the error's text.
pub open spec fn reply_model(
    message_id: u64,
    request_message_id: u64,
    data: Result<Seq<u8>, ProviderError>,
) -> ResponseModel {
    ResponseModel {
        message_id,
        request_message_id,
        data: match data {
            Ok(d) => Ok(d),
            Err(e) => Err(ErrorKindModel::Other(provider_error_text(e))),
        },
    }
}

/// The response that `send_response` sends for a provider's result.
pub fn response_message(
    message_id: u64,
    request_message_id: u64,
    data: Result<Bytes, ProviderError>,
) -> (r: Response)
    ensures
        r.message_id == message_id,
        r.request_message_id == request_message_id,
        data matches Ok(d) ==> r.data matches Ok(e) && e == d,
        data matches Err(err) ==> r.data matches Err(ErrorKind::Other(b)) && bytes_view(b)
            == provider_error_text(err),
        r@ == reply_model(
            message_id,
            request_message_id,
            match data {
                Ok(d) => Ok(bytes_view(d)),
                Err(e) => Err(e),
            },
        ),
{
    let data = match data {
        Ok(d) => Ok(d),
        Err(e) => Err(ErrorKind::Other(e.to_bytes())),
    };
    Response { message_id, request_message_id, data }
}

/// What a caller waiting for a response receives for the response's data.
pub open spec fn consumer_result_of(data: Result<Bytes, ErrorKind>) -> Result<Bytes, ConsumerError> {
    match data {
        Ok(d) => Ok(d),
        Err(ErrorKind::ServiceNotFound) => Err(ConsumerError::ServiceNotFound),
        Err(ErrorKind::MethodNotFound) => Err(ConsumerError::MethodNotFound),
        Err(ErrorKind::ProviderError) => Err(ConsumerError::ProviderError),
        Err(ErrorKind::Other(other)) => Err(ConsumerError::InvalidData(other)),
    }
}

/// The result that `handle_response` hands to the waiting caller.
pub fn consumer_result(data: Result<Bytes, ErrorKind>) -> (r: Result<Bytes, ConsumerError>)
    ensures
        r == consumer_result_of(data),
        data matches Ok(d) ==> r matches Ok(e) && e == d,
        data is Err ==> r is Err,
        data matches Err(ErrorKind::Other(b)) ==> r matches Err(ConsumerError::InvalidData(c))
            && c == b,
        data matches Err(ErrorKind::ServiceNotFound) ==> r matches Err(ConsumerError::ServiceNotFound),
        data matches Err(ErrorKind::MethodNotFound) ==> r matches Err(ConsumerError::MethodNotFound),
        data matches Err(ErrorKind::ProviderError) ==> r matches Err(ConsumerError::ProviderError),
{
    match data {
        Ok(d) => Ok(d),
        Err(ErrorKind::ServiceNotFound) => Err(ConsumerError::ServiceNotFound),
        Err(ErrorKind::MethodNotFound) => Err(ConsumerError::MethodNotFound),
        Err(ErrorKind::ProviderError) => Err(ConsumerError::ProviderError),
        Err(ErrorKind::Other(other)) => Err(ConsumerError::InvalidData(other)),
    }
}

/// What polling a response future yields once it is ready: a broadcast
/// never has a result; otherwise the received result, or `Disconnected`
/// when the engine dropped the sending side (`received` is `None`).
pub fn settle_response(is_broadcast: bool, received: Option<Result<Bytes, ConsumerError>>) -> (r:
    Result<Bytes, ConsumerError>)
    ensures
        is_broadcast ==> r matches Err(ConsumerError::Broadcast),
        !is_broadcast ==> r == match received {
            Some(result) => result,
            None => Err(ConsumerError::Disconnected),
        },
{
    if is_broadcast {
        Err(ConsumerError::Broadcast)
    } else {
        match received {
            Some(result) => result,
            None => Err(ConsumerError::Disconnected),
        }
    }
}

/// The kind of error that the caller of a failed request learns: the
/// names of a missing service or method come through as such, any other
/// provider error as `Other` with the error's text.
pub open spec fn answered_kind(e: ProviderError) -> ErrorKindModel {
    match e {
        ProviderError::ServiceNotFound => ErrorKindModel::ServiceNotFound,
        ProviderError::MethodNotFound => ErrorKindModel::MethodNotFound,
        _ => ErrorKindModel::Other(provider_error_text(e)),
    }
}

/// A refused request is answered with an error response that the other
/// side reads as `answered_kind(e)`, with the ids of the reply, for ids up
/// to `MAX_SAFE_INTEGER`.
pub proof fn law_refusal_is_understood(message_id: u64, request_message_id: u64, e: ProviderError)
    requires
        message_id <= MAX_SAFE_INTEGER,
        request_message_id <= MAX_SAFE_INTEGER,
    ensures
        parse_frame(response_frame(reply_model(message_id, request_message_id, Err(e)))) == Some(
            MessageModel::Response(
                ResponseModel { message_id, request_message_id, data: Err(answered_kind(e)) },
            ),
        ),
{
    let r = reply_model(message_id, request_message_id, Err(e));
    law_error_reply(r);
    assert(service_not_found_text().len() == 15);
    assert(method_not_found_text().len() == 14);
    assert(internal_error_text().len() == 13);
    assert(deserializer_error_text().len() == 17);
    assert(error_kind_of(provider_error_text(e)) == answered_kind(e));
}

/* The table of pending requests */

#[verifier::external_type_specification]
#[verifier::external_body]
#[verifier::reject_recursive_types(K)]
#[verifier::reject_recursive_types(V)]
#[verifier::reject_recursive_types(S)]
pub struct ExDashMap<K, V, S>(DashMap<K, V, S>);

#[verifier::external_type_specification]
#[verifier::external_body]
#[verifier::reject_recursive_types(T)]
pub struct ExOneshotSender<T>(oneshot::Sender<T>);

/// The sending half of the channel on which a caller waits for its result.
pub type ResultSender = oneshot::Sender<Result<Bytes, ConsumerError>>;

/// The callers that a table of waiting callers holds: the sender that
/// waits under each request id.
pub uninterp spec fn waiting_senders(m: DashMap<u64, ResultSender>) -> Map<u64, ResultSender>;

/// `DashMap::new`: an empty map.
#[verifier::external_body]
fn waiting_new() -> (r: DashMap<u64, ResultSender>)
    ensures
        waiting_senders(r).dom() == Set::<u64>::empty(),
{
    DashMap::new()
}

/// `DashMap::insert`: stores `tx` under `id`, replacing and handing back
/// what was stored under `id` before.
#[verifier::external_body]
fn waiting_insert(m: &mut DashMap<u64, ResultSender>, id: u64, tx: ResultSender) -> (r: Option<
    ResultSender,
>)
    ensures
        waiting_senders(*final(m)) == waiting_senders(*old(m)).insert(id, tx),
        r is Some <==> waiting_senders(*old(m)).dom().contains(id),
        r matches Some(prev) ==> prev == waiting_senders(*old(m))[id],
{
    m.insert(id, tx)
}

/// `DashMap::remove`: takes the entry of `id` out of the map, handing back
/// its value, if there is one.
#[verifier::external_body]
fn waiting_remove(m: &mut DashMap<u64, ResultSender>, id: u64) -> (r: Option<ResultSender>)
    ensures
        waiting_senders(*final(m)) == waiting_senders(*old(m)).remove(id),
        r is Some <==> waiting_senders(*old(m)).dom().contains(id),
        r matches Some(tx) ==> tx == waiting_senders(*old(m))[id],
{
    m.remove(&id).map(|(_, tx)| tx)
}

/// `DashMap::clear`: removes every entry.
#[verifier::external_body]
fn waiting_clear(m: &mut DashMap<u64, ResultSender>)
    ensures
        waiting_senders(*final(m)).dom() == Set::<u64>::empty(),
{
    m.clear()
}

/// The engine's message ids and the callers that wait for a response:
/// every message gets the id after the last one, and a response reaches
/// the caller registered under the id of its request.
pub struct RequestTable {
    last_message_id: u64,
    requests: DashMap<u64, ResultSender>,
}

/// The state of a request table: the last message id given out and the
/// sender of each caller that waits, under the id of its request.
pub struct RequestTableModel {
    pub last_message_id: u64,
    pub waiting: Map<u64, ResultSender>,
}

impl View for RequestTable {
    type V = RequestTableModel;

    closed spec fn view(&self) -> RequestTableModel {
        RequestTableModel {
            last_message_id: self.last_message_id,
            waiting: waiting_senders(self.requests),
        }
    }
}

/// Every waiting id was given out: it lies between 1 and the last id.
pub open spec fn table_wf(t: RequestTableModel) -> bool {
    forall|id: u64| #[trigger] t.waiting.dom().contains(id) ==> 1 <= id <= t.last_message_id
}

impl RequestTable {
    #[verifier::type_invariant]
    spec fn inv(self) -> bool {
        table_wf(self@)
    }

    /// A table that has given out no id and has no waiting caller.
    pub fn new() -> (r: Self)
        ensures
            r@.last_message_id == 0,
            r@.waiting.dom() == Set::<u64>::empty(),
    {
        RequestTable { last_message_id: 0, requests: waiting_new() }
    }

    /// The last message id given out.
    pub fn last_message_id(&self) -> (r: u64)
        ensures
            r == self@.last_message_id,
    {
        self.last_message_id
    }

    /// The id of the next message: the one after the last.
    pub fn next_message_id(&mut self) -> (r: u64)
        requires
            old(self)@.last_message_id < u64::MAX,
        ensures
            r == old(self)@.last_message_id + 1,
            final(self)@.last_message_id == r,
            final(self)@.waiting == old(self)@.waiting,
    {
        proof {
            use_type_invariant(&*self);
        }
        let id = self.last_message_id + 1;
        assert(table_wf(RequestTableModel { last_message_id: id, waiting: self@.waiting }));
        self.last_message_id = id;
        id
    }

    /// Give the next id to a request whose caller waits on `tx`; the id
    /// is one that no caller waits for yet, and `tx` waits under it.
    pub fn register(&mut self, tx: ResultSender) -> (r: u64)
        requires
            old(self)@.last_message_id < u64::MAX,
        ensures
            r == old(self)@.last_message_id + 1,
            !old(self)@.waiting.dom().contains(r),
            final(self)@.last_message_id == r,
            final(self)@.waiting == old(self)@.waiting.insert(r, tx),
    {
        proof {
            use_type_invariant(&*self);
        }
        let id = self.last_message_id + 1;
        let ghost old_waiting = self@.waiting;
        let mut requests = waiting_new();
        std::mem::swap(&mut requests, &mut self.requests);
        let ghost before = waiting_senders(requests);
        assert(before == old_waiting);
        let ghost sender = tx;
        let _ = waiting_insert(&mut requests, id, tx);
        self.last_message_id = id;
        assert(table_wf(RequestTableModel { last_message_id: id, waiting: before.insert(id, sender) }));
        self.requests = requests;
        id
    }

    /// The caller waiting for the response to request `id`: the sender
    /// registered under `id`, which then waits no longer; `None` when no
    /// caller waits for it.
    pub fn take(&mut self, id: u64) -> (r: Option<ResultSender>)
        ensures
            r is Some <==> old(self)@.waiting.dom().contains(id),
            r matches Some(tx) ==> tx == old(self)@.waiting[id],
            final(self)@.waiting == old(self)@.waiting.remove(id),
            final(self)@.last_message_id == old(self)@.last_message_id,
    {
        proof {
            use_type_invariant(&*self);
        }
        let ghost old_waiting = self@.waiting;
        let mut requests = waiting_new();
        std::mem::swap(&mut requests, &mut self.requests);
        let ghost before = waiting_senders(requests);
        assert(before == old_waiting);
        let r = waiting_remove(&mut requests, id);
        assert(table_wf(
            RequestTableModel { last_message_id: self.last_message_id, waiting: before.remove(id) },
        ));
        self.requests = requests;
        r
    }

    /// Drop every waiting caller: their channels close.
    pub fn clear(&mut self)
        ensures
            final(self)@.waiting.dom() == Set::<u64>::empty(),
            final(self)@.last_message_id == old(self)@.last_message_id,
    {
        let mut requests = waiting_new();
        std::mem::swap(&mut requests, &mut self.requests);
        waiting_clear(&mut requests);
        self.requests = requests;
    }
}

/// A request is answered once, to its own caller: the id that `register`
/// gives the caller `tx` is one that no other caller waits for, the first
/// `take` of that id hands back `tx` and leaves the other callers waiting
/// as they were, and a later `take` of it finds none.
pub proof fn law_answered_once(t: RequestTableModel, tx: ResultSender)
    requires
        table_wf(t),
        t.last_message_id < u64::MAX,
    ensures
        ({
            let id = (t.last_message_id + 1) as u64;
            let registered = t.waiting.insert(id, tx);
            &&& !t.waiting.dom().contains(id)
            &&& registered.dom().contains(id)
            &&& registered[id] == tx
            &&& registered.remove(id) == t.waiting
            &&& !registered.remove(id).dom().contains(id)
        }),
{
    let id = (t.last_message_id + 1) as u64;
    assert(t.waiting.insert(id, tx).remove(id) =~= t.waiting);
}

/// An error response never reaches the waiting caller as a result: every
/// kind of error arrives as an error, a payload that names no known kind
/// as `InvalidData` with that payload, and a response with data arrives as
/// that data.
pub proof fn law_errors_stay_errors(data: Result<Bytes, ErrorKind>)
    ensures
        data is Err ==> consumer_result_of(data) is Err,
        data matches Ok(d) ==> consumer_result_of(data) matches Ok(e) && e == d,
        data matches Err(ErrorKind::Other(b)) ==> consumer_result_of(data) matches Err(
            ConsumerError::InvalidData(c),
        ) && c == b,
{
}

/// A reply carries the ids it is given: its own id as `message_id` and the
/// answered request's id as `request_message_id`, whatever the result, and
/// a successful result's data unchanged.
pub proof fn law_reply_ids(
    message_id: u64,
    request_message_id: u64,
    data: Result<Seq<u8>, ProviderError>,
)
    ensures
        reply_model(message_id, request_message_id, data).message_id == message_id,
        reply_model(message_id, request_message_id, data).request_message_id
            == request_message_id,
        data matches Ok(d) ==> reply_model(message_id, request_message_id, data).data matches Ok(
            e,
        ) && e == d,
{
}

} // verus!
